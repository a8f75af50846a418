//! The restore session: it connects to one snapshot and hands out an image
//! archive segment by segment, data and holes told apart.
//!
//! The store describes an archive as a list of extents, each a run of bytes
//! that is either data or known to be all zero. The session joins
//! neighbouring extents of one kind into segments and walks them in order.
//! For each segment the caller feeds one sink: the data sink with the bytes,
//! or the zero sink with the length alone.

use crate::errors::SessionError;
use crate::setup::BackupSetup;
use vstd::prelude::*;

verus! {

/// What the store says of the next `len` bytes of an archive.
#[derive(Clone, Copy, Debug, PartialEq, Eq, Structural)]
pub struct Extent {
    pub len: u64,
    /// Whether the bytes are known to be all zero.
    pub sparse: bool,
}

/// One call of a sink: `len` bytes at `offset`, to the zero sink if `sparse`
/// and to the data sink if not.
#[derive(Clone, Copy, Debug, PartialEq, Eq, Structural)]
pub struct Segment {
    pub offset: u64,
    pub len: u64,
    pub sparse: bool,
}

/// The length of the archive that `extents` describes.
pub open spec fn total_len(extents: Seq<Extent>) -> nat
    decreases extents.len(),
{
    if extents.len() == 0 {
        0
    } else {
        total_len(extents.drop_last()) + extents.last().len as nat
    }
}

/// Whether the byte at `pos` of the archive that `extents` describes is
/// marked sparse. Meaningful for positions within the archive.
pub open spec fn sparse_at(extents: Seq<Extent>, pos: nat) -> bool
    decreases extents.len(),
{
    if extents.len() == 0 {
        false
    } else if pos >= total_len(extents.drop_last()) {
        extents.last().sparse
    } else {
        sparse_at(extents.drop_last(), pos)
    }
}

/// The position behind the last byte of a segment.
pub open spec fn segment_end(segment: Segment) -> nat {
    (segment.offset + segment.len) as nat
}

/// Whether the byte at `pos` lies in `segment`.
pub open spec fn covers(segment: Segment, pos: nat) -> bool {
    segment.offset <= pos < segment_end(segment)
}

/// Whether `second` follows `first` in a plan: it starts where `first` ends
/// and is of the other kind.
pub open spec fn follows(first: Segment, second: Segment) -> bool {
    second.offset == segment_end(first) && second.sparse != first.sparse
}

/// Whether `segments` form a chain: no segment is empty, the first starts at
/// zero, and each starts where the one before it ends and differs from it in
/// kind.
pub open spec fn is_chain(segments: Seq<Segment>) -> bool {
    &&& forall|i: int| 0 <= i < segments.len() ==> (#[trigger] segments[i]).len > 0
    &&& segments.len() > 0 ==> segments[0].offset == 0
    &&& forall|i: int, j: int|
        0 <= i && j == i + 1 && j < segments.len() ==> follows(
            #[trigger] segments[i],
            #[trigger] segments[j],
        )
}

/// Whether `segments` is the way to deliver the archive that `extents`
/// describes: the segments form a chain, the last ends with the archive, and
/// every byte of a segment is marked as the segment is.
pub open spec fn is_plan(segments: Seq<Segment>, extents: Seq<Extent>) -> bool {
    &&& is_chain(segments)
    &&& forall|i: int|
        0 <= i < segments.len() ==> segment_end(#[trigger] segments[i]) <= total_len(extents)
    &&& if segments.len() == 0 {
        total_len(extents) == 0
    } else {
        segment_end(segments.last()) == total_len(extents)
    }
    &&& forall|i: int, pos: nat|
        0 <= i < segments.len() && #[trigger] covers(segments[i], pos) ==> sparse_at(extents, pos)
            == segments[i].sparse
}

/// A longer list of extents describes an archive that is no shorter.
pub proof fn lemma_total_len_grows(extents: Seq<Extent>, count: int)
    requires
        0 <= count <= extents.len(),
    ensures
        total_len(extents.take(count)) <= total_len(extents),
    decreases extents.len() - count,
{
    if count == extents.len() {
        assert(extents.take(count) =~= extents);
    } else {
        lemma_total_len_grows(extents, count + 1);
        assert(extents.take(count + 1).drop_last() =~= extents.take(count));
    }
}

/// One more extent lengthens the archive by its length, marks the new bytes
/// as it is marked, and leaves the marks of the bytes before them.
pub proof fn lemma_extent_appended(seen: Seq<Extent>, extent: Extent)
    ensures
        total_len(seen.push(extent)) == total_len(seen) + extent.len,
        forall|pos: nat|
            pos < total_len(seen) ==> #[trigger] sparse_at(seen.push(extent), pos) == sparse_at(
                seen,
                pos,
            ),
        forall|pos: nat|
            pos >= total_len(seen) ==> #[trigger] sparse_at(seen.push(extent), pos)
                == extent.sparse,
{
    assert(seen.push(extent).drop_last() =~= seen);
}

/// An empty extent changes nothing in the plan.
proof fn lemma_plan_skip(segments: Seq<Segment>, seen: Seq<Extent>, extent: Extent)
    requires
        is_plan(segments, seen),
        extent.len == 0,
    ensures
        is_plan(segments, seen.push(extent)),
{
    lemma_extent_appended(seen, extent);
    let next = seen.push(extent);
    assert forall|i: int, pos: nat|
        0 <= i < segments.len() && #[trigger] covers(segments[i], pos) implies sparse_at(next, pos)
        == segments[i].sparse by {
        assert(segment_end(segments[i]) <= total_len(seen));
    }
}

/// An extent of the kind of the last segment lengthens that segment.
proof fn lemma_plan_join(segments: Seq<Segment>, seen: Seq<Extent>, extent: Extent)
    requires
        is_plan(segments, seen),
        extent.len > 0,
        segments.len() > 0,
        segments.last().sparse == extent.sparse,
        total_len(seen) + extent.len <= u64::MAX,
    ensures
        is_plan(
            segments.update(
                segments.len() - 1,
                Segment { len: (segments.last().len + extent.len) as u64, ..segments.last() },
            ),
            seen.push(extent),
        ),
{
    lemma_extent_appended(seen, extent);
    let next = seen.push(extent);
    let last = segments.len() - 1;
    let joined = Segment { len: (segments.last().len + extent.len) as u64, ..segments.last() };
    let after = segments.update(last, joined);
    assert(segment_end(segments[last]) == total_len(seen));
    assert(segment_end(joined) == total_len(next));
    assert forall|i: int, j: int| 0 <= i && j == i + 1 && j < after.len() implies follows(
        #[trigger] after[i],
        #[trigger] after[j],
    ) by {
        assert(follows(segments[i], segments[j]));
    }
    assert forall|i: int| 0 <= i < after.len() implies segment_end(#[trigger] after[i])
        <= total_len(next) by {
        assert(segment_end(segments[i]) <= total_len(seen));
    }
    assert forall|i: int, pos: nat|
        0 <= i < after.len() && #[trigger] covers(after[i], pos) implies sparse_at(next, pos)
        == after[i].sparse by {
        if i < last {
            assert(covers(segments[i], pos));
            assert(segment_end(segments[i]) <= total_len(seen));
        } else if pos < total_len(seen) {
            assert(covers(segments[i], pos));
        }
    }
}

/// An extent of another kind than the last segment, or the first extent
/// that is not empty, starts a segment of its own.
proof fn lemma_plan_push(segments: Seq<Segment>, seen: Seq<Extent>, extent: Extent)
    requires
        is_plan(segments, seen),
        extent.len > 0,
        segments.len() > 0 ==> segments.last().sparse != extent.sparse,
        total_len(seen) + extent.len <= u64::MAX,
    ensures
        is_plan(
            segments.push(
                Segment { offset: total_len(seen) as u64, len: extent.len, sparse: extent.sparse },
            ),
            seen.push(extent),
        ),
{
    lemma_extent_appended(seen, extent);
    let next = seen.push(extent);
    let added = Segment { offset: total_len(seen) as u64, len: extent.len, sparse: extent.sparse };
    let after = segments.push(added);
    assert(segment_end(added) == total_len(next));
    assert forall|i: int, j: int| 0 <= i && j == i + 1 && j < after.len() implies follows(
        #[trigger] after[i],
        #[trigger] after[j],
    ) by {
        if j < segments.len() {
            assert(follows(segments[i], segments[j]));
        } else {
            assert(after[i] == segments.last());
        }
    }
    assert forall|i: int| 0 <= i < after.len() implies segment_end(#[trigger] after[i])
        <= total_len(next) by {
        if i < segments.len() {
            assert(segment_end(segments[i]) <= total_len(seen));
        }
    }
    assert forall|i: int, pos: nat|
        0 <= i < after.len() && #[trigger] covers(after[i], pos) implies sparse_at(next, pos)
        == after[i].sparse by {
        if i < segments.len() {
            assert(covers(segments[i], pos));
            assert(segment_end(segments[i]) <= total_len(seen));
        }
    }
}

/// Joins the extents of an archive into the segments to deliver. Fails if
/// the extents add up to more than a 64-bit length.
pub fn plan_segments(extents: &Vec<Extent>) -> (planned: Result<Vec<Segment>, SessionError>)
    ensures
        match planned {
            Ok(segments) => total_len(extents@) <= u64::MAX && is_plan(segments@, extents@),
            Err(error) => total_len(extents@) > u64::MAX && error == SessionError::ArchiveTooLarge,
        },
{
    let mut segments: Vec<Segment> = Vec::new();
    let mut reached: u64 = 0;
    let mut i: usize = 0;
    assert(extents@.take(0) =~= Seq::<Extent>::empty());
    while i < extents.len()
        invariant
            i <= extents.len(),
            reached == total_len(extents@.take(i as int)),
            is_plan(segments@, extents@.take(i as int)),
        decreases extents.len() - i,
    {
        let extent = extents[i];
        let ghost seen = extents@.take(i as int);
        let ghost before = segments@;
        proof {
            assert(extents@.take(i + 1) =~= seen.push(extent));
            lemma_extent_appended(seen, extent);
        }
        if extent.len > u64::MAX - reached {
            proof {
                lemma_total_len_grows(extents@, i + 1);
            }
            return Err(SessionError::ArchiveTooLarge);
        }
        if extent.len > 0 {
            let count = segments.len();
            if count > 0 && segments[count - 1].sparse == extent.sparse {
                let joined = segments[count - 1].len + extent.len;
                segments[count - 1].len = joined;
                proof {
                    lemma_plan_join(before, seen, extent);
                    assert(segments@ =~= before.update(
                        count - 1,
                        Segment { len: joined, ..before.last() },
                    ));
                }
            } else {
                segments.push(Segment { offset: reached, len: extent.len, sparse: extent.sparse });
                proof {
                    lemma_plan_push(before, seen, extent);
                }
            }
            reached = reached + extent.len;
        } else {
            proof {
                lemma_plan_skip(before, seen, extent);
            }
        }
        i += 1;
    }
    assert(extents@.take(extents@.len() as int) =~= extents@);
    Ok(segments)
}

/// In a chain every segment ends before a later one starts: the segments
/// come in strictly increasing order of offset and do not overlap.
pub proof fn lemma_chain_ordered(segments: Seq<Segment>, i: int, j: int)
    requires
        is_chain(segments),
        0 <= i < j < segments.len(),
    ensures
        segments[i].offset < segment_end(segments[i]) <= segments[j].offset,
    decreases j - i,
{
    assert(segments[i].len > 0);
    if j == i + 1 {
        assert(follows(segments[i], segments[j]));
    } else {
        lemma_chain_ordered(segments, i, j - 1);
        assert(follows(segments[j - 1], segments[j]));
        assert(segments[j - 1].len > 0);
    }
}

/// In a plan every byte of the archive lies in a segment.
pub proof fn lemma_plan_covers(segments: Seq<Segment>, extents: Seq<Extent>, pos: nat)
    requires
        is_plan(segments, extents),
        pos < total_len(extents),
    ensures
        exists|i: int| 0 <= i < segments.len() && covers(#[trigger] segments[i], pos),
{
    lemma_covered_from(segments, extents, pos, segments.len() - 1);
}

/// A byte before the end of segment `upto` lies in that segment or in one
/// before it.
proof fn lemma_covered_from(segments: Seq<Segment>, extents: Seq<Extent>, pos: nat, upto: int)
    requires
        is_plan(segments, extents),
        0 <= upto < segments.len(),
        pos < segment_end(segments[upto]),
    ensures
        exists|i: int| 0 <= i <= upto && covers(#[trigger] segments[i], pos),
    decreases upto,
{
    if pos >= segments[upto].offset {
        assert(covers(segments[upto], pos));
    } else {
        assert(upto > 0);
        assert(follows(segments[upto - 1], segments[upto]));
        lemma_covered_from(segments, extents, pos, upto - 1);
    }
}

/// No byte lies in two segments of a plan.
pub proof fn lemma_plan_covers_once(
    segments: Seq<Segment>,
    extents: Seq<Extent>,
    pos: nat,
    i: int,
    j: int,
)
    requires
        is_plan(segments, extents),
        0 <= i < segments.len(),
        0 <= j < segments.len(),
        covers(segments[i], pos),
        covers(segments[j], pos),
    ensures
        i == j,
{
    if i < j {
        lemma_chain_ordered(segments, i, j);
    } else if j < i {
        lemma_chain_ordered(segments, j, i);
    }
}

/// Two plans of one archive cannot differ in the length of a segment that
/// they start at the same place and mark alike: behind the shorter one the
/// kind would have to change and to stay.
proof fn lemma_same_start_same_length(
    shorter: Seq<Segment>,
    longer: Seq<Segment>,
    extents: Seq<Extent>,
    k: int,
)
    requires
        is_plan(shorter, extents),
        is_plan(longer, extents),
        0 <= k < shorter.len(),
        k < longer.len(),
        shorter[k].offset == longer[k].offset,
        shorter[k].sparse == longer[k].sparse,
    ensures
        shorter[k].len >= longer[k].len,
{
    if shorter[k].len < longer[k].len {
        let pos = segment_end(shorter[k]);
        assert(covers(longer[k], pos));
        assert(segment_end(longer[k]) <= total_len(extents));
        if k == shorter.len() - 1 {
            assert(shorter.last() == shorter[k]);
        } else {
            assert(follows(shorter[k], shorter[k + 1]));
            assert(shorter[k + 1].len > 0);
            assert(covers(shorter[k + 1], pos));
        }
    }
}

/// Two plans of one archive have the same segment at every place that both
/// have.
proof fn lemma_plans_agree_at(
    first: Seq<Segment>,
    second: Seq<Segment>,
    extents: Seq<Extent>,
    k: int,
)
    requires
        is_plan(first, extents),
        is_plan(second, extents),
        0 <= k < first.len(),
        k < second.len(),
    ensures
        first[k] == second[k],
    decreases k,
{
    if k > 0 {
        lemma_plans_agree_at(first, second, extents, k - 1);
        assert(follows(first[k - 1], first[k]));
        assert(follows(second[k - 1], second[k]));
    }
    let start = first[k].offset as nat;
    assert(first[k].len > 0 && second[k].len > 0);
    assert(covers(first[k], start));
    assert(covers(second[k], start));
    lemma_same_start_same_length(first, second, extents, k);
    lemma_same_start_same_length(second, first, extents, k);
}

/// An archive has one plan: the conditions of `is_plan` leave no choice, so
/// that they say what `plan_segments` returns.
pub proof fn lemma_plan_is_unique(first: Seq<Segment>, second: Seq<Segment>, extents: Seq<Extent>)
    requires
        is_plan(first, extents),
        is_plan(second, extents),
    ensures
        first == second,
{
    lemma_no_plan_is_longer(first, second, extents);
    lemma_no_plan_is_longer(second, first, extents);
    assert forall|k: int| 0 <= k < first.len() implies first[k] == second[k] by {
        lemma_plans_agree_at(first, second, extents, k);
    }
    assert(first =~= second);
}

/// A plan has no fewer segments than another plan of the same archive.
proof fn lemma_no_plan_is_longer(first: Seq<Segment>, second: Seq<Segment>, extents: Seq<Extent>)
    requires
        is_plan(first, extents),
        is_plan(second, extents),
    ensures
        first.len() >= second.len(),
{
    if first.len() < second.len() {
        let k = first.len() as int;
        assert(second[k].len > 0);
        assert(segment_end(second[k]) <= total_len(extents));
        if k > 0 {
            lemma_plans_agree_at(first, second, extents, k - 1);
            assert(first.last() == first[k - 1]);
            assert(follows(second[k - 1], second[k]));
        }
    }
}

/// A session delivers in order: every segment delivered so far ends at or
/// before the read offset, and every segment still to come starts at or
/// behind it. The read offset never moves back.
pub proof fn lemma_delivery_is_in_order(session: ProxmoxRestoreView, done: int, left: int)
    requires
        session.wf(),
        0 <= done < session.delivered,
        session.delivered <= left < session.segments.len(),
    ensures
        segment_end(session.segments[done]) <= session.offset <= session.segments[left].offset,
{
    let next = session.delivered as int;
    lemma_chain_ordered(session.segments, done, next);
    if next < left {
        lemma_chain_ordered(session.segments, next, left);
    }
}

/// When an archive has been delivered in full, the read offset is the end
/// of its last segment, and every segment lies before it.
pub proof fn lemma_exhausted_means_all_delivered(session: ProxmoxRestoreView, done: int)
    requires
        session.wf(),
        session.state == RestoreState::Exhausted,
        0 <= done < session.segments.len(),
    ensures
        session.delivered == session.segments.len(),
        session.offset == segment_end(session.segments.last()),
        segment_end(session.segments[done]) <= session.offset,
{
    let last = session.segments.len() - 1;
    if done < last {
        lemma_chain_ordered(session.segments, done, last);
        assert(session.segments[last].len > 0);
    }
}

/// Where a restore session stands.
#[derive(Clone, Copy, Debug, PartialEq, Eq, Structural)]
pub enum RestoreState {
    /// Made, not yet connected.
    Created,
    /// Connected to the snapshot; no archive has been opened.
    Connected,
    /// An archive is open and has segments left to deliver.
    Open,
    /// The open archive has been delivered in full.
    Exhausted,
    /// The delivery of the open archive was stopped by a failed download or
    /// by a sink.
    Closed,
}

/// A restore session as plain values.
pub struct ProxmoxRestoreView {
    pub setup: BackupSetup,
    pub state: RestoreState,
    /// The name of the archive opened last.
    pub archive: Option<String>,
    /// The segments of that archive.
    pub segments: Seq<Segment>,
    /// How many of the segments have been delivered.
    pub delivered: nat,
    /// The read offset: the end of the segment delivered last.
    pub offset: nat,
}

impl ProxmoxRestoreView {
    /// Whether the segments could be the plan of an archive: they form a
    /// chain, and none ends beyond a 64-bit length.
    pub open spec fn chained(self) -> bool {
        &&& is_chain(self.segments)
        &&& forall|i: int|
            0 <= i < self.segments.len() ==> segment_end(#[trigger] self.segments[i]) <= u64::MAX
    }

    /// The invariant of a restore session: the segments are chained, the
    /// read offset is the start of the next segment, and the state says
    /// whether one is left.
    pub open spec fn wf(self) -> bool {
        &&& self.chained()
        &&& self.delivered <= self.segments.len() <= usize::MAX
        &&& self.delivered < self.segments.len() ==> self.offset
            == self.segments[self.delivered as int].offset
        &&& self.delivered == self.segments.len() && self.delivered > 0 ==> self.offset
            == segment_end(self.segments.last())
        &&& self.delivered == 0 ==> self.offset == 0
        &&& self.state == RestoreState::Open ==> self.delivered < self.segments.len()
        &&& self.state == RestoreState::Exhausted ==> self.delivered == self.segments.len()
        &&& (self.state == RestoreState::Created || self.state == RestoreState::Connected)
            ==> self.archive is None && self.segments.len() == 0
        &&& (self.state == RestoreState::Open || self.state == RestoreState::Exhausted
            || self.state == RestoreState::Closed) ==> self.archive is Some
    }

    /// The error that stops `connect`, if any.
    pub open spec fn connect_error(self) -> Option<SessionError> {
        if self.state != RestoreState::Created {
            Some(SessionError::AlreadyConnected)
        } else {
            None
        }
    }

    /// The error that stops the opening of an archive, if any.
    pub open spec fn open_error(self, name: Option<String>) -> Option<SessionError> {
        if name is None {
            Some(SessionError::MissingArchiveName)
        } else if self.state == RestoreState::Created {
            Some(SessionError::NotConnected)
        } else if self.state == RestoreState::Open {
            Some(SessionError::ArchiveAlreadyOpen)
        } else {
            None
        }
    }
}

/// A restore session.
pub struct ProxmoxRestore {
    setup: BackupSetup,
    state: RestoreState,
    archive: Option<String>,
    segments: Vec<Segment>,
    delivered: usize,
    offset: u64,
}

impl View for ProxmoxRestore {
    type V = ProxmoxRestoreView;

    closed spec fn view(&self) -> ProxmoxRestoreView {
        ProxmoxRestoreView {
            setup: self.setup,
            state: self.state,
            archive: self.archive,
            segments: self.segments@,
            delivered: self.delivered as nat,
            offset: self.offset as nat,
        }
    }
}

impl ProxmoxRestore {
    /// Makes a restore session. No network traffic happens before `connect`.
    pub fn new(setup: BackupSetup) -> (session: ProxmoxRestore)
        ensures
            session@ == (ProxmoxRestoreView {
                setup,
                state: RestoreState::Created,
                archive: None,
                segments: Seq::empty(),
                delivered: 0,
                offset: 0,
            }),
            session@.wf(),
    {
        ProxmoxRestore {
            setup,
            state: RestoreState::Created,
            archive: None,
            segments: Vec::new(),
            delivered: 0,
            offset: 0,
        }
    }

    /// Connects the session, given what the handshake with the store
    /// yielded.
    pub fn connect(&mut self, handshake: Result<(), String>) -> (connected: Result<
        (),
        SessionError,
    >)
        requires
            old(self)@.wf(),
        ensures
            final(self)@.wf(),
            match old(self)@.connect_error() {
                Some(error) => connected == Err::<(), SessionError>(error) && final(self)@ == old(self)@,
                None => match handshake {
                    Err(detail) => connected == Err::<(), SessionError>(
                        SessionError::Connection(detail),
                    ) && final(self)@ == old(self)@,
                    Ok(()) => connected == Ok::<(), SessionError>(()) && final(self)@ == (
                    ProxmoxRestoreView { state: RestoreState::Connected, ..old(self)@ }),
                },
            },
    {
        match self.state {
            RestoreState::Created => {},
            _ => {
                return Err(SessionError::AlreadyConnected);
            },
        }
        match handshake {
            Err(detail) => Err(SessionError::Connection(detail)),
            Ok(()) => {
                self.state = RestoreState::Connected;
                Ok(())
            },
        }
    }

    /// Returns the error that stops the opening of an archive, if there is
    /// one. To be asked before the store is asked for the extents.
    pub fn check_open(&self, name: &Option<String>) -> (checked: Result<(), SessionError>)
        ensures
            checked == match self@.open_error(*name) {
                Some(error) => Err::<(), SessionError>(error),
                None => Ok(()),
            },
    {
        if name.is_none() {
            return Err(SessionError::MissingArchiveName);
        }
        match self.state {
            RestoreState::Created => Err(SessionError::NotConnected),
            RestoreState::Open => Err(SessionError::ArchiveAlreadyOpen),
            _ => Ok(()),
        }
    }

    /// Opens the archive `name`, given the extents the store listed for it,
    /// and plans its delivery. Returns the length of the archive. An archive
    /// can be opened once the session is connected and no other archive is
    /// being delivered.
    pub fn open_archive(
        &mut self,
        name: Option<String>,
        listing: Result<Vec<Extent>, String>,
    ) -> (opened: Result<u64, SessionError>)
        requires
            old(self)@.wf(),
        ensures
            final(self)@.wf(),
            match old(self)@.open_error(name) {
                Some(error) => opened == Err::<u64, SessionError>(error) && final(self)@ == old(self)@,
                None => match listing {
                    Err(detail) => opened == Err::<u64, SessionError>(
                        SessionError::Transfer(detail),
                    ) && final(self)@ == old(self)@,
                    Ok(extents) => if total_len(extents@) > u64::MAX {
                        opened == Err::<u64, SessionError>(SessionError::ArchiveTooLarge) && final(self)@ == old(self)@
                    } else {
                        &&& opened == Ok::<u64, SessionError>(total_len(extents@) as u64)
                        &&& is_plan(final(self)@.segments, extents@)
                        &&& final(self)@.setup == old(self)@.setup
                        &&& final(self)@.archive == name
                        &&& final(self)@.delivered == 0
                        &&& final(self)@.offset == 0
                        &&& final(self)@.state == if total_len(extents@) == 0 {
                            RestoreState::Exhausted
                        } else {
                            RestoreState::Open
                        }
                    },
                },
            },
    {
        match self.check_open(&name) {
            Err(error) => {
                return Err(error);
            },
            Ok(()) => {},
        }
        let extents = match listing {
            Err(detail) => {
                return Err(SessionError::Transfer(detail));
            },
            Ok(extents) => extents,
        };
        let segments = match plan_segments(&extents) {
            Err(error) => {
                return Err(error);
            },
            Ok(segments) => segments,
        };
        let count = segments.len();
        let total: u64 = if count == 0 {
            0
        } else {
            segments[count - 1].offset + segments[count - 1].len
        };
        self.archive = name;
        self.segments = segments;
        self.delivered = 0;
        self.offset = 0;
        self.state = if count == 0 {
            RestoreState::Exhausted
        } else {
            RestoreState::Open
        };
        Ok(total)
    }

    /// The segment to deliver next, if an archive is open and has one left.
    pub fn next_segment(&self) -> (next: Option<Segment>)
        requires
            self@.wf(),
        ensures
            next == if self@.state == RestoreState::Open {
                Some(self@.segments[self@.delivered as int])
            } else {
                None
            },
            next matches Some(segment) ==> segment.offset == self@.offset && segment.len > 0,
    {
        match self.state {
            RestoreState::Open => Some(self.segments[self.delivered]),
            _ => None,
        }
    }

    /// Records how the delivery of the next segment went: `Err` with the
    /// words of the store if its bytes could not be fetched, else the status
    /// the sink returned. A failed download or a status other than zero
    /// stops the delivery at once; status zero moves the read offset to the
    /// end of the segment. Returns whether segments are left.
    pub fn segment_done(&mut self, outcome: Result<i32, String>) -> (more: Result<
        bool,
        SessionError,
    >)
        requires
            old(self)@.wf(),
        ensures
            final(self)@.wf(),
            if old(self)@.state != RestoreState::Open {
                more == Err::<bool, SessionError>(SessionError::NoArchiveOpen) && final(self)@
                    == old(self)@
            } else {
                match outcome {
                    Err(detail) => more == Err::<bool, SessionError>(
                        SessionError::Transfer(detail),
                    ) && final(self)@ == (ProxmoxRestoreView {
                        state: RestoreState::Closed,
                        ..old(self)@
                    }),
                    Ok(status) => if status != 0 {
                        more == Err::<bool, SessionError>(SessionError::SinkAborted(status))
                            && final(self)@ == (ProxmoxRestoreView {
                            state: RestoreState::Closed,
                            ..old(self)@
                        })
                    } else {
                        let segment = old(self)@.segments[old(self)@.delivered as int];
                        let left = old(self)@.delivered + 1 < old(self)@.segments.len();
                        &&& more == Ok::<bool, SessionError>(left)
                        &&& final(self)@ == (ProxmoxRestoreView {
                            state: if left {
                                RestoreState::Open
                            } else {
                                RestoreState::Exhausted
                            },
                            delivered: old(self)@.delivered + 1,
                            offset: old(self)@.offset + segment.len as nat,
                            ..old(self)@
                        })
                    },
                }
            },
    {
        match self.state {
            RestoreState::Open => {},
            _ => {
                return Err(SessionError::NoArchiveOpen);
            },
        }
        let status = match outcome {
            Err(detail) => {
                self.state = RestoreState::Closed;
                return Err(SessionError::Transfer(detail));
            },
            Ok(status) => status,
        };
        if status != 0 {
            self.state = RestoreState::Closed;
            return Err(SessionError::SinkAborted(status));
        }
        let segment = self.segments[self.delivered];
        let next = self.delivered + 1;
        let left = next < self.segments.len();
        proof {
            let before = old(self)@;
            if left {
                assert(follows(before.segments[before.delivered as int], before.segments[next as int]));
            }
        }
        self.offset = segment.offset + segment.len;
        self.delivered = next;
        self.state = if left {
            RestoreState::Open
        } else {
            RestoreState::Exhausted
        };
        Ok(left)
    }

    /// Where the session stands.
    pub fn state(&self) -> (state: RestoreState)
        ensures
            state == self@.state,
    {
        self.state
    }

    /// The read offset: the end of the segment delivered last.
    pub fn offset(&self) -> (offset: u64)
        ensures
            offset == self@.offset,
    {
        self.offset
    }

    /// Whether the open archive has been delivered in full.
    pub fn is_exhausted(&self) -> (exhausted: bool)
        ensures
            exhausted == (self@.state == RestoreState::Exhausted),
    {
        match self.state {
            RestoreState::Exhausted => true,
            _ => false,
        }
    }

    /// The name of the archive opened last.
    pub fn archive_name(&self) -> (name: &Option<String>)
        ensures
            *name == self@.archive,
    {
        &self.archive
    }

    /// What the session was set up with.
    pub fn setup(&self) -> (setup: &BackupSetup)
        ensures
            *setup == self@.setup,
    {
        &self.setup
    }
}

} // verus!
