//! The completion bridge: how the result of an operation that runs elsewhere
//! reaches the caller that started it, either by waking a caller that blocks
//! or by handing the result to a caller that asked to be notified.

use crate::errors::SessionError;
use std::ops::DerefMut;
use std::sync::{Condvar, Mutex, MutexGuard, PoisonError};
use vstd::prelude::*;

verus! {

/// Status of a connect that found no earlier backup, and of every other
/// operation that succeeded without a value of its own.
pub const STATUS_SUCCESS: i32 = 0;

/// Status of a connect that found an earlier backup.
pub const STATUS_SUCCESS_WITH_PRIOR: i32 = 1;

/// Status of every failed operation.
pub const STATUS_FAILURE: i32 = -1;

/// What a finished operation leaves for its caller: a status and, for a
/// failure, the message that says why.
#[derive(Clone, Debug, PartialEq, Eq)]
pub struct Completion {
    pub status: i32,
    pub error: Option<String>,
}

/// A completion as plain values.
pub struct CompletionView {
    pub status: int,
    pub error: Option<Seq<char>>,
}

impl View for Completion {
    type V = CompletionView;

    open spec fn view(&self) -> CompletionView {
        CompletionView {
            status: self.status as int,
            error: match self.error {
                Some(text) => Some(text@),
                None => None,
            },
        }
    }
}

/// The completion that the result of an operation stands for: the value as
/// status and no message on success, the failure status and the message of
/// the error on failure.
pub open spec fn completion_of(result: Result<i32, SessionError>) -> CompletionView {
    match result {
        Ok(value) => CompletionView { status: value as int, error: None },
        Err(error) => CompletionView {
            status: STATUS_FAILURE as int,
            error: Some(error.message_spec()),
        },
    }
}

impl Completion {
    /// A completion is well formed when a message comes only with the
    /// failure status.
    pub open spec fn wf(self) -> bool {
        self.error is Some ==> self.status == STATUS_FAILURE
    }

    /// Turns the result of an operation into what its caller receives.
    pub fn from_result(result: Result<i32, SessionError>) -> (completion: Completion)
        ensures
            completion@ == completion_of(result),
            completion.wf(),
    {
        match result {
            Ok(value) => Completion { status: value, error: None },
            Err(error) => Completion { status: STATUS_FAILURE, error: Some(error.message()) },
        }
    }
}

/// The status of a connect that succeeded: one value where an earlier backup
/// of the same target was found, another where none was.
pub open spec fn connect_status_spec(found_prior: bool) -> i32 {
    if found_prior {
        STATUS_SUCCESS_WITH_PRIOR
    } else {
        STATUS_SUCCESS
    }
}

/// Returns the status of a connect that succeeded.
pub fn connect_status(found_prior: bool) -> (status: i32)
    ensures
        status == connect_status_spec(found_prior),
        status != STATUS_FAILURE,
{
    if found_prior {
        STATUS_SUCCESS_WITH_PRIOR
    } else {
        STATUS_SUCCESS
    }
}

/// Whether a zero byte occurs in `bytes`.
pub open spec fn has_zero_byte(bytes: Seq<u8>) -> bool {
    exists|i: int| 0 <= i < bytes.len() && bytes[i] == 0
}

/// The message that is handed to a caller who reads messages as
/// zero-terminated strings: `text` itself, unless its UTF-8 form holds a
/// zero byte and would end early; then a fixed message says so.
pub fn sanitize_message(text: String) -> (sent: String)
    ensures
        sent@ == if has_zero_byte(vstd::utf8::encode_utf8(text@)) {
            "failed to convert error message containing 0 bytes"@
        } else {
            text@
        },
{
    let bytes = text.as_str().as_bytes();
    let mut i: usize = 0;
    while i < bytes.len() && bytes[i] != 0
        invariant
            i <= bytes.len(),
            forall|j: int| 0 <= j < i ==> bytes@[j] != 0,
        decreases bytes.len() - i,
    {
        i += 1;
    }
    if i < bytes.len() {
        assert(bytes@[i as int] == 0);
        String::from_str("failed to convert error message containing 0 bytes")
    } else {
        text
    }
}

/// What a caller receives is fixed by the result of the operation and does
/// not depend on the form of the call: a completion taken by a caller that
/// blocked and one handed to a caller that asked to be notified hold the
/// same status and the same message when both stand for the same result.
pub proof fn lemma_forms_deliver_same_content(
    result: Result<i32, SessionError>,
    blocking: Completion,
    notified: Completion,
)
    requires
        blocking@ == completion_of(result),
        notified@ == completion_of(result),
    ensures
        blocking@ == notified@,
        blocking.status == notified.status,
        blocking.error is Some <==> result is Err,
        blocking.status == STATUS_FAILURE <== result is Err,
{
}

/// The slot of one operation: empty until the operation completes, then
/// holding its completion until the caller takes it. A slot is filled at most
/// once and emptied at most once.
pub struct CompletionToken {
    signalled: bool,
    slot: Option<Completion>,
}

impl CompletionToken {
    #[verifier::type_invariant]
    spec fn inv(self) -> bool {
        &&& !self.signalled ==> self.slot is None
        &&& self.slot matches Some(completion) ==> completion.wf()
    }

    /// Whether the operation has completed.
    pub closed spec fn signalled(self) -> bool {
        self.signalled
    }

    /// The completion that waits to be taken, if there is one.
    pub closed spec fn held(self) -> Option<Completion> {
        self.slot
    }

    /// A slot for an operation that has not completed.
    pub fn new() -> (token: CompletionToken)
        ensures
            !token.signalled(),
            token.held() is None,
    {
        CompletionToken { signalled: false, slot: None }
    }

    /// Whether the operation is still running.
    pub fn is_pending(&self) -> (pending: bool)
        ensures
            pending == !self.signalled(),
    {
        !self.signalled
    }

    /// Records the result of the operation. The first call fills the slot and
    /// returns `true`: the caller must now be signalled, once. Any later call
    /// changes nothing and returns `false`.
    pub fn complete(&mut self, result: Result<i32, SessionError>) -> (signal: bool)
        ensures
            signal == !old(self).signalled(),
            final(self).signalled(),
            signal ==> final(self).held() is Some && final(self).held()->0@ == completion_of(
                result,
            ),
            !signal ==> final(self).held() == old(self).held(),
    {
        if self.signalled {
            false
        } else {
            let completion = Completion::from_result(result);
            *self = CompletionToken { signalled: true, slot: Some(completion) };
            true
        }
    }

    /// Takes the completion out of the slot. Returns `None` while the
    /// operation runs and after the completion has been taken.
    pub fn take(&mut self) -> (taken: Option<Completion>)
        ensures
            taken == old(self).held(),
            final(self).held() is None,
            final(self).signalled() == old(self).signalled(),
            taken matches Some(completion) ==> completion.wf(),
    {
        proof {
            use_type_invariant(&*self);
        }
        let mut emptied = CompletionToken { signalled: self.signalled, slot: None };
        core::mem::swap(self, &mut emptied);
        emptied.slot
    }
}

/// Trusted: the type `Mutex` of std, opaque here.
#[verifier::external_type_specification]
#[verifier::external_body]
#[verifier::reject_recursive_types(T)]
pub struct ExMutex<T: ?Sized>(Mutex<T>);

/// Trusted: the type `Condvar` of std, opaque here.
#[verifier::external_type_specification]
#[verifier::external_body]
pub struct ExCondvar(Condvar);

/// Trusted: the type `MutexGuard` of std, opaque here.
#[verifier::external_type_specification]
#[verifier::external_body]
#[verifier::reject_recursive_types(T)]
pub struct ExMutexGuard<'a, T: ?Sized + 'a>(MutexGuard<'a, T>);

/// Trusted: the type `PoisonError` of std, opaque here.
#[verifier::external_type_specification]
#[verifier::external_body]
#[verifier::reject_recursive_types(T)]
pub struct ExPoisonError<T>(PoisonError<T>);

/// Trusted: `Mutex::new` of std makes a mutex around the value. Nothing is
/// claimed of the result.
pub assume_specification<T>[ Mutex::<T>::new ](value: T) -> Mutex<T>;

/// Trusted: `Mutex::lock` of std blocks until the mutex is free and hands
/// out its guard, inside an error if a thread panicked while it held the
/// mutex. Nothing is claimed of the result. std lets the call panic or hang
/// when the calling thread holds the mutex already; the guards taken in this
/// file are dropped before their function returns and none is taken while
/// another is held.
pub assume_specification<'a, T: ?Sized>[ Mutex::<T>::lock ](mutex: &'a Mutex<T>) -> Result<
    MutexGuard<'a, T>,
    PoisonError<MutexGuard<'a, T>>,
>;

/// Trusted: `PoisonError::into_inner` of std hands out the guard that the
/// error carries. Nothing is claimed of the result.
pub assume_specification<T>[ PoisonError::<T>::into_inner ](error: PoisonError<T>) -> T;

/// Trusted: `deref_mut` of a `MutexGuard` of std gives access to the value
/// that the mutex guards. Nothing is claimed of the result.
pub assume_specification<'a, 'b, T: ?Sized>[ <MutexGuard<'a, T> as core::ops::DerefMut>::deref_mut ](
    guard: &'b mut MutexGuard<'a, T>,
) -> &'b mut T;

/// Trusted: `Condvar::new` of std makes a condition variable. Nothing is
/// claimed of the result.
pub assume_specification[ Condvar::new ]() -> Condvar;

/// Trusted: `Condvar::notify_all` of std wakes every thread that waits on
/// the condition.
pub assume_specification[ Condvar::notify_all ](condvar: &Condvar);

/// Trusted: `Condvar::wait_while` of std releases the mutex of the guard and
/// sleeps on the condition until the guarded token is no longer pending,
/// looking again after every wake-up; it hands the guard back, inside an
/// error if a thread panicked while it held the mutex. Nothing is claimed of
/// the result.
#[verifier::external_body]
fn wait_while_pending<'a>(
    cond: &Condvar,
    guard: MutexGuard<'a, CompletionToken>,
) -> Result<MutexGuard<'a, CompletionToken>, PoisonError<MutexGuard<'a, CompletionToken>>> {
    cond.wait_while(guard, |token| token.is_pending())
}

/// The one-shot primitive behind a blocking call: a slot guarded by a mutex,
/// and a condition on which the caller sleeps until the slot is filled.
pub struct GotResultCondition {
    lock: Mutex<CompletionToken>,
    cond: Condvar,
}

impl GotResultCondition {
    /// A condition for an operation that has not completed: its slot is a
    /// fresh `CompletionToken`. The slot lies behind the mutex, where other
    /// threads change it, so no clause can speak of it.
    pub fn new() -> Self {
        Self { lock: Mutex::new(CompletionToken::new()), cond: Condvar::new() }
    }

    /// Stores the result of the operation, then wakes whoever waits for it:
    /// the slot is filled before the signal is given. Returns whether this
    /// call was the one that completed the operation; a result sent after
    /// the first is dropped and wakes nobody. What is returned is what
    /// `CompletionToken::complete` returns for the slot as this call finds
    /// it, and what it finds is up to the other callers.
    pub fn send_result(&self, result: Result<i32, SessionError>) -> (first: bool) {
        let mut guard = match self.lock.lock() {
            Ok(guard) => guard,
            Err(poisoned) => poisoned.into_inner(),
        };
        let first = guard.deref_mut().complete(result);
        if first {
            self.cond.notify_all();
        }
        first
    }

    /// Blocks until the operation has completed, then takes its completion.
    /// Returns `None` if the completion has been taken before. What is
    /// returned is what `CompletionToken::take` returns for the slot as the
    /// wait leaves it; whatever that is, a completion that comes out is well
    /// formed.
    pub fn wait(&self) -> (completion: Option<Completion>)
        ensures
            completion matches Some(received) ==> received.wf(),
    {
        let guard = match self.lock.lock() {
            Ok(guard) => guard,
            Err(poisoned) => poisoned.into_inner(),
        };
        let mut guard = match wait_while_pending(&self.cond, guard) {
            Ok(guard) => guard,
            Err(poisoned) => poisoned.into_inner(),
        };
        guard.deref_mut().take()
    }
}

} // verus!
