//! Binding or connecting to the first address that works.
//!
//! An address given by the user may resolve to several socket addresses. Binding a
//! listener, or connecting a stream, tries them one after another, in the order in which
//! they were resolved:
//!
//! - the first attempt that succeeds ends the run, and its socket is the result; no
//!   later address is tried;
//! - when every address has been tried and none succeeded, the result is the error of
//!   the last attempt;
//! - when there was no address at all, the result is an "invalid input" error whose
//!   message depends on whether a listener was being bound or a stream connected.
//!
//! The attempts themselves are I/O and happen outside this library. [`Attempts`] is the
//! state of one run: the caller reports each event (the outcome of an attempt, or the
//! end of the address list) to [`Attempts::step`] and does what the returned [`Action`]
//! says.

use vstd::prelude::*;

verus! {

/// What a run of attempts is for. It decides the message of the error that an empty
/// address list produces.
#[derive(Clone, Copy, Debug)]
pub enum Purpose {
    /// Binding a listener.
    Bind,
    /// Connecting a stream.
    Connect,
}

/// The message of the "invalid input" error reported when the address list is empty.
pub open spec fn no_address_text(purpose: Purpose) -> Seq<char> {
    match purpose {
        Purpose::Bind => "could not resolve to any of the addresses"@,
        Purpose::Connect => "could not connect to any of the addresses"@,
    }
}

/// The message of the "invalid input" error reported when the address list of a run of
/// attempts for `purpose` is empty.
pub fn no_address_message(purpose: Purpose) -> (msg: &'static str)
    ensures
        msg@ == no_address_text(purpose),
{
    match purpose {
        Purpose::Bind => "could not resolve to any of the addresses",
        Purpose::Connect => "could not connect to any of the addresses",
    }
}

/// Why a run of attempts produced no socket.
#[derive(Debug)]
pub enum AttemptError<E> {
    /// Every address was tried and failed; this is the error of the last attempt.
    Last(E),
    /// The address list was empty, so nothing was tried.
    NoAddresses,
}

/// What the caller reports to a run of attempts.
#[derive(Debug)]
pub enum Event<T, E> {
    /// The next address of the list was tried, with this outcome.
    Attempted(Result<T, E>),
    /// The address list has no further address.
    Exhausted,
}

/// What the caller does next.
#[derive(Debug)]
pub enum Action<T, E> {
    /// Try the next address of the list, if there is one, and report the event.
    Continue,
    /// The run is over, with this result.
    Finish(Result<T, AttemptError<E>>),
}

/// The abstract state of a run of attempts.
pub struct Progress<E> {
    /// The error of the most recent failed attempt, while the run holds one: it is
    /// handed out when the address list runs out.
    pub last_err: Option<E>,
    /// Whether the run has ended.
    pub finished: bool,
}

/// The state of one run of attempts.
pub struct Attempts<E> {
    last_err: Option<E>,
    finished: bool,
}

impl<E> View for Attempts<E> {
    type V = Progress<E>;

    closed spec fn view(&self) -> Progress<E> {
        Progress { last_err: self.last_err, finished: self.finished }
    }
}

/// The result of a run that ran out of addresses, given the error of its last attempt.
pub open spec fn exhausted_result<T, E>(last_err: Option<E>) -> Result<T, AttemptError<E>> {
    match last_err {
        Some(err) => Err(AttemptError::Last(err)),
        None => Err(AttemptError::NoAddresses),
    }
}

/// The state of a run before anything was tried.
pub open spec fn initial_progress<E>() -> Progress<E> {
    Progress { last_err: None, finished: false }
}

/// One step of a run of attempts: the state and the action that follow `event` in state
/// `progress`.
pub open spec fn next_step<T, E>(progress: Progress<E>, event: Event<T, E>) -> (Progress<E>, Action<T, E>) {
    match event {
        Event::Attempted(Ok(socket)) => (
            Progress { last_err: progress.last_err, finished: true },
            Action::Finish(Ok(socket)),
        ),
        Event::Attempted(Err(err)) => (
            Progress { last_err: Some(err), finished: false },
            Action::Continue,
        ),
        Event::Exhausted => (
            Progress { last_err: None, finished: true },
            Action::Finish(exhausted_result(progress.last_err)),
        ),
    }
}

/// The action that ends a run in state `progress` when it is told, in order, the
/// outcomes `outcomes` of the attempts on the successive addresses of the list and then,
/// if it is still going, the end of the list; paired with the number of attempts that
/// the run asked for.
pub open spec fn run<T, E>(progress: Progress<E>, outcomes: Seq<Result<T, E>>) -> (Action<T, E>, nat)
    decreases outcomes.len(),
{
    if outcomes.len() == 0 {
        (next_step(progress, Event::<T, E>::Exhausted).1, 0)
    } else {
        let (next, action) = next_step(progress, Event::Attempted(outcomes[0]));
        match action {
            Action::Continue => {
                let (last, tried) = run(next, outcomes.drop_first());
                (last, tried + 1)
            },
            Action::Finish(_) => (action, 1),
        }
    }
}

/// Whether `i` is the index of the first successful outcome in `outcomes`.
pub open spec fn is_first_success<T, E>(outcomes: Seq<Result<T, E>>, i: int) -> bool {
    &&& 0 <= i < outcomes.len()
    &&& outcomes[i] is Ok
    &&& forall|j: int| 0 <= j < i ==> #[trigger] outcomes[j] is Err
}

/// Whether every outcome in `outcomes` is a failure.
pub open spec fn all_failed<T, E>(outcomes: Seq<Result<T, E>>) -> bool {
    forall|i: int| 0 <= i < outcomes.len() ==> #[trigger] outcomes[i] is Err
}

proof fn lemma_run_from<T, E>(progress: Progress<E>, outcomes: Seq<Result<T, E>>)
    requires
        !progress.finished,
    ensures
        run(progress, outcomes).0 is Finish,
        forall|i: int|
            #[trigger] is_first_success(outcomes, i) ==> run(progress, outcomes) == (
                Action::<T, E>::Finish(Ok(outcomes[i]->Ok_0)),
                (i + 1) as nat,
            ),
        all_failed(outcomes) && outcomes.len() > 0 ==> run(progress, outcomes) == (
            Action::<T, E>::Finish(Err(AttemptError::Last(outcomes.last()->Err_0))),
            outcomes.len(),
        ),
        outcomes.len() == 0 ==> run(progress, outcomes) == (
            Action::<T, E>::Finish(exhausted_result(progress.last_err)),
            0nat,
        ),
    decreases outcomes.len(),
{
    if outcomes.len() > 0 {
        let rest = outcomes.drop_first();
        match outcomes[0] {
            Ok(_) => {
                assert forall|i: int| #[trigger] is_first_success(outcomes, i) implies i == 0 by {
                    if i > 0 {
                        assert(outcomes[0] is Err);
                    }
                }
            },
            Err(err) => {
                let next = Progress { last_err: Some(err), finished: false };
                lemma_run_from(next, rest);
                assert forall|i: int| #[trigger] is_first_success(outcomes, i) implies run(
                    progress,
                    outcomes,
                ) == (Action::<T, E>::Finish(Ok(outcomes[i]->Ok_0)), (i + 1) as nat) by {
                    if i == 0 {
                        assert(outcomes[0] is Ok);
                    } else {
                        assert forall|j: int| 0 <= j < i - 1 implies #[trigger] rest[j] is Err by {
                            assert(outcomes[j + 1] is Err);
                        }
                        assert(rest[i - 1] == outcomes[i]);
                        assert(is_first_success(rest, i - 1));
                    }
                }
                if all_failed(outcomes) && outcomes.len() > 1 {
                    assert forall|j: int| 0 <= j < rest.len() implies #[trigger] rest[j] is Err by {
                        assert(outcomes[j + 1] is Err);
                    }
                    assert(rest.last() == outcomes.last());
                }
            },
        }
    }
}

/// The rule of a run of attempts, started afresh and told the outcomes `outcomes` of
/// trying the resolved addresses in order:
///
/// - the run always ends with a result;
/// - when some attempt succeeds, the result is the socket of the first success, and the
///   run asks for no attempt after it;
/// - when every address was tried and failed, the result is the error of the last
///   attempt;
/// - when there is no address, the result is [`AttemptError::NoAddresses`] and nothing
///   is tried.
pub proof fn lemma_first_success_else_last_error<T, E>(outcomes: Seq<Result<T, E>>)
    ensures
        run(initial_progress::<E>(), outcomes).0 is Finish,
        forall|i: int|
            #[trigger] is_first_success(outcomes, i) ==> run(initial_progress::<E>(), outcomes)
                == (Action::<T, E>::Finish(Ok(outcomes[i]->Ok_0)), (i + 1) as nat),
        all_failed(outcomes) && outcomes.len() > 0 ==> run(initial_progress::<E>(), outcomes) == (
            Action::<T, E>::Finish(Err(AttemptError::Last(outcomes.last()->Err_0))),
            outcomes.len(),
        ),
        outcomes.len() == 0 ==> run(initial_progress::<E>(), outcomes) == (
            Action::<T, E>::Finish(Err(AttemptError::NoAddresses)),
            0nat,
        ),
{
    lemma_run_from(initial_progress::<E>(), outcomes);
}

impl<E> Attempts<E> {
    /// Starts a run of attempts: nothing has been tried yet.
    pub fn new() -> (attempts: Self)
        ensures
            attempts@ == initial_progress::<E>(),
    {
        Attempts { last_err: None, finished: false }
    }

    /// Whether the run has ended.
    pub fn is_finished(&self) -> (finished: bool)
        ensures
            finished == self@.finished,
    {
        self.finished
    }

    /// Reports `event` to a run that has not ended, and returns what to do next.
    ///
    /// A successful attempt ends the run with its socket; a failed attempt is remembered
    /// and the run goes on; the end of the address list ends the run with the error of
    /// the last attempt, or with [`AttemptError::NoAddresses`] when nothing was tried.
    pub fn step<T>(&mut self, event: Event<T, E>) -> (action: Action<T, E>)
        requires
            !old(self)@.finished,
        ensures
            (final(self)@, action) == next_step(old(self)@, event),
    {
        match event {
            Event::Attempted(Ok(socket)) => {
                self.finished = true;
                Action::Finish(Ok(socket))
            },
            Event::Attempted(Err(err)) => {
                self.last_err = Some(err);
                Action::Continue
            },
            Event::Exhausted => {
                self.finished = true;
                match self.last_err.take() {
                    Some(err) => Action::Finish(Err(AttemptError::Last(err))),
                    None => Action::Finish(Err(AttemptError::NoAddresses)),
                }
            },
        }
    }
}

} // verus!
