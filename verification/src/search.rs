//! The protocol by which the workers of one search share its state.
//!
//! The workers share two things: a flag that says that an address has been
//! found, and a count of the keys that have been tried. A worker polls the
//! flag, counts an attempt, probes one key, and on a hit tries to claim the
//! flag. Each of these steps touches the shared state at most once, so a
//! concurrent run is an interleaving of such steps.
//!
//! `Worker` holds the decisions of one worker: it is told what a step
//! observed and answers with the step to take next. `attempt` is the probe
//! of one key. `SearchState` is the shared state with its three operations.
//! `SearchModel` puts any number of workers and the shared state together;
//! the laws at the end of the module hold of every interleaving.

use crate::address::{address_of, is_first_match, no_match_below};
use crate::entropy::mixed_entropy;
use crate::key::{key_of_entropy, Key};
use crate::variants::texts;
use vstd::prelude::*;

verus! {

/// How a worker ended.
#[derive(Clone, Copy, Debug, PartialEq, Eq, Structural)]
pub enum Outcome {
    /// It saw the flag set before it found an address.
    Cancelled,
    /// It found an address and set the flag.
    Won,
    /// It found an address, but another worker had set the flag.
    Lost,
}

/// Where a worker stands in its loop.
#[derive(Clone, Copy, Debug, PartialEq, Eq, Structural)]
pub enum Phase {
    /// About to read the flag.
    Polling,
    /// About to count an attempt.
    Counting,
    /// About to make a key and search its addresses.
    Probing,
    /// About to claim the flag for an address it found.
    Claiming,
    /// Out of the loop.
    Finished(Outcome),
}

/// What a worker observed when it took a step.
#[derive(Clone, Copy, Debug, PartialEq, Eq, Structural)]
pub enum Event {
    /// The flag was read, with this value.
    FlagRead(bool),
    /// The attempt was added to the shared count.
    Counted,
    /// A key was searched; `true` where one of its addresses matched.
    Probed(bool),
    /// The claim was made; `true` where it set the flag.
    Claimed(bool),
}

/// The step a worker takes next.
#[derive(Clone, Copy, Debug, PartialEq, Eq, Structural)]
pub enum Action {
    /// Read the flag.
    ReadFlag,
    /// Add one to the shared count.
    Count,
    /// Make a key and search its addresses.
    Probe,
    /// Set the flag if it is not set.
    Claim,
    /// Report the address found, then leave the loop.
    Report,
    /// Leave the loop and report nothing.
    Stop,
}

/// One worker: its phase and the number of attempts it has counted.
pub struct WorkerModel {
    pub phase: Phase,
    pub iterations: nat,
}

/// The shared state and the workers of one search.
pub struct SearchModel {
    pub found: bool,
    pub keys_checked: nat,
    pub workers: Seq<WorkerModel>,
}

/// The worker after it observed `event`. An event that does not belong to
/// the worker's phase leaves it as it is.
pub open spec fn worker_next(worker: WorkerModel, event: Event) -> WorkerModel {
    match (worker.phase, event) {
        (Phase::Polling, Event::FlagRead(found)) => WorkerModel {
            phase: if found {
                Phase::Finished(Outcome::Cancelled)
            } else {
                Phase::Counting
            },
            iterations: worker.iterations,
        },
        (Phase::Counting, Event::Counted) => WorkerModel {
            phase: Phase::Probing,
            iterations: worker.iterations + 1,
        },
        (Phase::Probing, Event::Probed(matched)) => WorkerModel {
            phase: if matched {
                Phase::Claiming
            } else {
                Phase::Polling
            },
            iterations: worker.iterations,
        },
        (Phase::Claiming, Event::Claimed(won)) => WorkerModel {
            phase: Phase::Finished(
                if won {
                    Outcome::Won
                } else {
                    Outcome::Lost
                },
            ),
            iterations: worker.iterations,
        },
        _ => worker,
    }
}

/// The step that a worker in `phase` takes next.
pub open spec fn action_in(phase: Phase) -> Action {
    match phase {
        Phase::Polling => Action::ReadFlag,
        Phase::Counting => Action::Count,
        Phase::Probing => Action::Probe,
        Phase::Claiming => Action::Claim,
        Phase::Finished(Outcome::Won) => Action::Report,
        Phase::Finished(_) => Action::Stop,
    }
}

/// A search before its first step: the flag is clear, no key is counted, and
/// each of the `workers` workers is about to read the flag.
pub open spec fn is_start(state: SearchModel) -> bool {
    &&& !state.found
    &&& state.keys_checked == 0
    &&& forall|i: int|
        0 <= i < state.workers.len() ==> #[trigger] state.workers[i] == (WorkerModel {
            phase: Phase::Polling,
            iterations: 0,
        })
}

/// Worker `i` takes its next step, which leads from `before` to `after`.
/// `matched` is what the search of a key gives, where the step is one.
pub open spec fn worker_steps(
    before: SearchModel,
    after: SearchModel,
    i: int,
    matched: bool,
) -> bool {
    &&& 0 <= i < before.workers.len()
    &&& match before.workers[i].phase {
        Phase::Polling => after == SearchModel {
            workers: before.workers.update(
                i,
                worker_next(before.workers[i], Event::FlagRead(before.found)),
            ),
            ..before
        },
        Phase::Counting => after == SearchModel {
            keys_checked: before.keys_checked + 1,
            workers: before.workers.update(i, worker_next(before.workers[i], Event::Counted)),
            ..before
        },
        Phase::Probing => after == SearchModel {
            workers: before.workers.update(
                i,
                worker_next(before.workers[i], Event::Probed(matched)),
            ),
            ..before
        },
        Phase::Claiming => after == SearchModel {
            found: true,
            workers: before.workers.update(
                i,
                worker_next(before.workers[i], Event::Claimed(!before.found)),
            ),
            ..before
        },
        Phase::Finished(_) => false,
    }
}

/// Some worker takes a step from `before` to `after`.
pub open spec fn steps(before: SearchModel, after: SearchModel) -> bool {
    exists|i: int, matched: bool| worker_steps(before, after, i, matched)
}

/// A run: the states of a search from its start on, each reached from the
/// one before by a step of some worker.
pub open spec fn is_run(trace: Seq<SearchModel>) -> bool {
    &&& trace.len() > 0
    &&& is_start(trace[0])
    &&& forall|k: int| 0 <= k < trace.len() - 1 ==> steps(#[trigger] trace[k], trace[k + 1])
}

/// The number of workers that have won.
pub open spec fn winners(workers: Seq<WorkerModel>) -> nat
    decreases workers.len(),
{
    if workers.len() == 0 {
        0
    } else {
        winners(workers.drop_last()) + if workers.last().phase == Phase::Finished(Outcome::Won) {
            1nat
        } else {
            0nat
        }
    }
}

/// The sum of the attempts that the workers have counted.
pub open spec fn total_iterations(workers: Seq<WorkerModel>) -> nat
    decreases workers.len(),
{
    if workers.len() == 0 {
        0
    } else {
        total_iterations(workers.drop_last()) + workers.last().iterations
    }
}

/// The number of steps among the first `upto` of a run at which the flag
/// went from clear to set.
pub open spec fn flag_rises(trace: Seq<SearchModel>, upto: int) -> nat
    decreases upto,
{
    if upto <= 0 {
        0
    } else {
        flag_rises(trace, upto - 1) + if !trace[upto - 1].found && trace[upto].found {
            1nat
        } else {
            0nat
        }
    }
}

/// Every worker has left its loop.
pub open spec fn all_finished(state: SearchModel) -> bool {
    forall|i: int| 0 <= i < state.workers.len() ==> (#[trigger] state.workers[i]).phase is Finished
}

/// What holds of every state of a run: the flag is set exactly when one
/// worker has won, no second worker ever wins, a worker leaves its loop only
/// when the flag is set, and the shared count is the sum of the workers' own
/// counts.
pub open spec fn consistent(state: SearchModel) -> bool {
    &&& winners(state.workers) == if state.found {
        1nat
    } else {
        0nat
    }
    &&& forall|i: int|
        0 <= i < state.workers.len() && (#[trigger] state.workers[i]).phase is Finished
            ==> state.found
    &&& state.keys_checked == total_iterations(state.workers)
}

/// The shared state of a search: the flag and the count of keys.
pub struct SearchState {
    found: bool,
    keys_checked: u64,
}

/// What a `SearchState` holds.
pub struct SearchStateView {
    pub found: bool,
    pub keys_checked: nat,
}

impl View for SearchState {
    type V = SearchStateView;

    closed spec fn view(&self) -> SearchStateView {
        SearchStateView { found: self.found, keys_checked: self.keys_checked as nat }
    }
}

impl SearchState {
    /// The state before the search: the flag clear, no key counted.
    pub fn new() -> (state: SearchState)
        ensures
            state@ == (SearchStateView { found: false, keys_checked: 0 }),
    {
        SearchState { found: false, keys_checked: 0 }
    }

    /// Reads the flag.
    pub fn is_found(&self) -> (found: bool)
        ensures
            found == self@.found,
    {
        self.found
    }

    /// Reads the count of keys.
    pub fn keys_checked(&self) -> (count: u64)
        ensures
            count == self@.keys_checked,
    {
        self.keys_checked
    }

    /// Adds one to the count of keys. The count never goes down.
    pub fn record_attempt(&mut self)
        requires
            old(self)@.keys_checked < u64::MAX,
        ensures
            final(self)@ == (SearchStateView {
                keys_checked: old(self)@.keys_checked + 1,
                ..old(self)@
            }),
    {
        self.keys_checked = self.keys_checked + 1;
    }

    /// Sets the flag if it is clear. Returns `true` exactly when this call
    /// set it: of all the claims made on one state, only the first succeeds.
    pub fn try_claim(&mut self) -> (won: bool)
        ensures
            won == !old(self)@.found,
            final(self)@ == (SearchStateView { found: true, ..old(self)@ }),
    {
        let won = !self.found;
        self.found = true;
        won
    }
}

/// What a step does to the shared state and what the worker observes of it.
/// Only reading the flag, counting and claiming touch the shared state; the
/// other steps observe nothing of it.
pub open spec fn shared_effect(state: SearchStateView, action: Action) -> (
    SearchStateView,
    Option<Event>,
) {
    match action {
        Action::ReadFlag => (state, Some(Event::FlagRead(state.found))),
        Action::Count => (
            SearchStateView { keys_checked: state.keys_checked + 1, ..state },
            Some(Event::Counted),
        ),
        Action::Claim => (
            SearchStateView { found: true, ..state },
            Some(Event::Claimed(!state.found)),
        ),
        _ => (state, None),
    }
}

impl SearchState {
    /// Takes a worker's step on the shared state, and returns what the
    /// worker observes. A state that is asked to count must have room for
    /// one more key.
    pub fn apply(&mut self, action: Action) -> (event: Option<Event>)
        requires
            action == Action::Count ==> old(self)@.keys_checked < u64::MAX,
        ensures
            (final(self)@, event) == shared_effect(old(self)@, action),
    {
        match action {
            Action::ReadFlag => Some(Event::FlagRead(self.is_found())),
            Action::Count => {
                self.record_attempt();
                Some(Event::Counted)
            },
            Action::Claim => Some(Event::Claimed(self.try_claim())),
            _ => None,
        }
    }
}

/// The decisions of one worker.
pub struct Worker {
    phase: Phase,
    iterations: u64,
}

impl View for Worker {
    type V = WorkerModel;

    closed spec fn view(&self) -> WorkerModel {
        WorkerModel { phase: self.phase, iterations: self.iterations as nat }
    }
}

impl Worker {
    /// A worker about to read the flag for the first time.
    pub fn new() -> (worker: Worker)
        ensures
            worker@ == (WorkerModel { phase: Phase::Polling, iterations: 0 }),
    {
        Worker { phase: Phase::Polling, iterations: 0 }
    }

    /// Where the worker stands.
    pub fn phase(&self) -> (phase: Phase)
        ensures
            phase == self@.phase,
    {
        self.phase
    }

    /// The number of attempts the worker has counted.
    pub fn iterations(&self) -> (count: u64)
        ensures
            count == self@.iterations,
    {
        self.iterations
    }

    /// The step the worker takes next.
    pub fn pending(&self) -> (action: Action)
        ensures
            action == action_in(self@.phase),
    {
        match self.phase {
            Phase::Polling => Action::ReadFlag,
            Phase::Counting => Action::Count,
            Phase::Probing => Action::Probe,
            Phase::Claiming => Action::Claim,
            Phase::Finished(Outcome::Won) => Action::Report,
            Phase::Finished(_) => Action::Stop,
        }
    }

    /// Tells the worker what its last step observed, and returns the step to
    /// take next. A worker that is about to count must have room for one
    /// more attempt.
    pub fn step(&mut self, event: Event) -> (action: Action)
        requires
            old(self)@.phase == Phase::Counting ==> old(self)@.iterations < u64::MAX,
        ensures
            final(self)@ == worker_next(old(self)@, event),
            action == action_in(final(self)@.phase),
    {
        match (self.phase, event) {
            (Phase::Polling, Event::FlagRead(found)) => {
                if found {
                    self.phase = Phase::Finished(Outcome::Cancelled);
                } else {
                    self.phase = Phase::Counting;
                }
            },
            (Phase::Counting, Event::Counted) => {
                self.phase = Phase::Probing;
                self.iterations = self.iterations + 1;
            },
            (Phase::Probing, Event::Probed(matched)) => {
                if matched {
                    self.phase = Phase::Claiming;
                } else {
                    self.phase = Phase::Polling;
                }
            },
            (Phase::Claiming, Event::Claimed(won)) => {
                if won {
                    self.phase = Phase::Finished(Outcome::Won);
                } else {
                    self.phase = Phase::Finished(Outcome::Lost);
                }
            },
            _ => {},
        }
        self.pending()
    }
}

/// A key with the first of its addresses that ends with a wanted suffix.
pub struct Hit {
    pub key: Key,
    pub address: String,
    pub index: u32,
}

/// The probe of one key: makes fresh key material from the user's text and
/// searches its addresses at the indices below `max_index` for the first one
/// that ends with one of the suffixes of `desired`. Returns the key with
/// that address and its index, or `None` where the key has no such address.
/// The user's text is left as it was.
pub fn attempt(user_entropy: &mut String, desired: &Vec<String>, max_index: u32) -> (hit: Option<
    Hit,
>)
    ensures
        *final(user_entropy) == *old(user_entropy),
        match hit {
            Some(hit) => {
                &&& exists|system: Seq<u8>|
                    system.len() == 32 && hit.key@ == key_of_entropy(
                        #[trigger] mixed_entropy(old(user_entropy)@, system),
                    )
                &&& is_first_match(hit.key@.wallet, texts(desired@), max_index, hit.index)
                &&& hit.address@ == address_of(hit.key@.wallet, hit.index)
            },
            None => exists|system: Seq<u8>|
                system.len() == 32 && no_match_below(
                    key_of_entropy(#[trigger] mixed_entropy(old(user_entropy)@, system)).wallet,
                    texts(desired@),
                    max_index,
                ),
        },
{
    let key = Key::generate(user_entropy);
    match key.vanity_address(desired, &max_index) {
        Some((address, index)) => Some(Hit { key, address, index }),
        None => None,
    }
}

/// The number of addresses derived once `keys` keys have each been searched
/// at `max_index` indices.
pub fn addresses_derived(keys: u64, max_index: u32) -> (total: u128)
    ensures
        total == keys * max_index,
{
    assert(keys * max_index <= u64::MAX * u32::MAX) by (nonlinear_arith)
        requires
            keys <= u64::MAX,
            max_index <= u32::MAX,
    ;
    let wide_keys: u128 = keys as u128;
    let wide_index: u128 = max_index as u128;
    wide_keys * wide_index
}

/// The state that worker `i` reaches from `before` when its pending step is
/// taken on the shared state as `SearchState::apply` takes it, and the
/// worker is told the outcome as `Worker::step` is told it.
pub open spec fn after_step_of(before: SearchModel, i: int, matched: bool) -> SearchModel {
    let worker = before.workers[i];
    let shared = SearchStateView { found: before.found, keys_checked: before.keys_checked };
    let (shared_after, observed) = shared_effect(shared, action_in(worker.phase));
    let event = match observed {
        Some(event) => event,
        None => Event::Probed(matched),
    };
    SearchModel {
        found: shared_after.found,
        keys_checked: shared_after.keys_checked,
        workers: before.workers.update(i, worker_next(worker, event)),
    }
}

/// A worker that has not finished, driven by `SearchState::apply` and
/// `Worker::step`, takes exactly the steps of the model.
pub proof fn lemma_driven_worker_steps(before: SearchModel, i: int, matched: bool)
    requires
        0 <= i < before.workers.len(),
        !(before.workers[i].phase is Finished),
    ensures
        worker_steps(before, after_step_of(before, i, matched), i, matched),
        steps(before, after_step_of(before, i, matched)),
{
    assert(worker_steps(before, after_step_of(before, i, matched), i, matched));
}

/// One where the worker has won, zero where it has not.
spec fn win(worker: WorkerModel) -> nat {
    if worker.phase == Phase::Finished(Outcome::Won) {
        1
    } else {
        0
    }
}

/// Replacing one worker changes the number of winners by that worker's part
/// in it.
proof fn lemma_winners_update(workers: Seq<WorkerModel>, i: int, worker: WorkerModel)
    requires
        0 <= i < workers.len(),
    ensures
        winners(workers.update(i, worker)) + win(workers[i]) == winners(workers) + win(worker),
    decreases workers.len(),
{
    let updated = workers.update(i, worker);
    if i == workers.len() - 1 {
        assert(updated.drop_last() =~= workers.drop_last());
    } else {
        assert(updated.drop_last() =~= workers.drop_last().update(i, worker));
        lemma_winners_update(workers.drop_last(), i, worker);
    }
}

/// Replacing one worker changes the sum of the counts by the difference of
/// that worker's count.
proof fn lemma_iterations_update(workers: Seq<WorkerModel>, i: int, worker: WorkerModel)
    requires
        0 <= i < workers.len(),
    ensures
        total_iterations(workers.update(i, worker)) + workers[i].iterations == total_iterations(
            workers,
        ) + worker.iterations,
    decreases workers.len(),
{
    let updated = workers.update(i, worker);
    if i == workers.len() - 1 {
        assert(updated.drop_last() =~= workers.drop_last());
    } else {
        assert(updated.drop_last() =~= workers.drop_last().update(i, worker));
        lemma_iterations_update(workers.drop_last(), i, worker);
    }
}

/// Workers that have not begun hold no winner and no counted attempt.
proof fn lemma_fresh_workers(workers: Seq<WorkerModel>)
    requires
        forall|i: int|
            0 <= i < workers.len() ==> #[trigger] workers[i] == (WorkerModel {
                phase: Phase::Polling,
                iterations: 0,
            }),
    ensures
        winners(workers) == 0,
        total_iterations(workers) == 0,
    decreases workers.len(),
{
    if workers.len() > 0 {
        let rest = workers.drop_last();
        assert forall|i: int| 0 <= i < rest.len() implies #[trigger] rest[i] == (WorkerModel {
            phase: Phase::Polling,
            iterations: 0,
        }) by {
            assert(rest[i] == workers[i]);
        }
        lemma_fresh_workers(rest);
        assert(workers.last() == workers[workers.len() - 1]);
    }
}

/// A search is consistent before its first step.
pub proof fn lemma_start_is_consistent(state: SearchModel)
    requires
        is_start(state),
    ensures
        consistent(state),
{
    lemma_fresh_workers(state.workers);
}

/// A step of a worker keeps the search consistent. It never clears the
/// flag, never lowers the count of keys, and keeps the number of workers.
/// Where it sets the flag, the worker that took it is the one winner.
pub proof fn lemma_step_keeps_consistent(before: SearchModel, after: SearchModel)
    requires
        consistent(before),
        steps(before, after),
    ensures
        consistent(after),
        before.found ==> after.found,
        before.keys_checked <= after.keys_checked,
        after.workers.len() == before.workers.len(),
        winners(before.workers) <= winners(after.workers),
        winners(after.workers) == winners(before.workers) + if !before.found && after.found {
            1nat
        } else {
            0nat
        },
{
    let (i, matched) = choose|i: int, matched: bool| worker_steps(before, after, i, matched);
    let worker = before.workers[i];
    let next = after.workers[i];
    assert(after.workers == before.workers.update(i, next));
    lemma_winners_update(before.workers, i, next);
    lemma_iterations_update(before.workers, i, next);
}

/// Every state of a run is consistent, and the flag has risen once by then
/// if it is set and never if it is clear.
proof fn lemma_run_is_consistent(trace: Seq<SearchModel>, k: int)
    requires
        is_run(trace),
        0 <= k < trace.len(),
    ensures
        consistent(trace[k]),
        trace[k].workers.len() == trace[0].workers.len(),
        flag_rises(trace, k) == if trace[k].found {
            1nat
        } else {
            0nat
        },
    decreases k,
{
    if k == 0 {
        lemma_start_is_consistent(trace[0]);
    } else {
        lemma_run_is_consistent(trace, k - 1);
        assert(steps(trace[k - 1], trace[k - 1 + 1]));
        lemma_step_keeps_consistent(trace[k - 1], trace[k]);
    }
}

/// Single winner. At every moment of a run at most one worker has won, and
/// one has exactly when the flag is set. Up to that moment the flag has gone
/// from clear to set once if it is set, and never if it is clear: it rises
/// at most once in the whole run.
pub proof fn lemma_single_winner(trace: Seq<SearchModel>, k: int)
    requires
        is_run(trace),
        0 <= k < trace.len(),
    ensures
        winners(trace[k].workers) <= 1,
        winners(trace[k].workers) == 1 <==> trace[k].found,
        flag_rises(trace, k) <= 1,
        flag_rises(trace, k) == 1 <==> trace[k].found,
{
    lemma_run_is_consistent(trace, k);
}

/// Once the flag is set it stays set, and a worker that has won stays the
/// winner: the number of winners never goes down.
pub proof fn lemma_flag_stays_set(trace: Seq<SearchModel>, j: int, k: int)
    requires
        is_run(trace),
        0 <= j <= k < trace.len(),
    ensures
        trace[j].found ==> trace[k].found,
        winners(trace[j].workers) <= winners(trace[k].workers),
    decreases k - j,
{
    if j < k {
        lemma_flag_stays_set(trace, j, k - 1);
        lemma_run_is_consistent(trace, k - 1);
        assert(steps(trace[k - 1], trace[k - 1 + 1]));
        lemma_step_keeps_consistent(trace[k - 1], trace[k]);
    }
}

/// A worker leaves its loop only when the flag is set. So a run in which
/// every worker has left its loop has found an address, and exactly one of
/// its workers reports it.
pub proof fn lemma_ended_run_has_one_winner(trace: Seq<SearchModel>, k: int)
    requires
        is_run(trace),
        0 <= k < trace.len(),
        trace[k].workers.len() > 0,
        all_finished(trace[k]),
    ensures
        trace[k].found,
        winners(trace[k].workers) == 1,
{
    lemma_run_is_consistent(trace, k);
    assert(trace[k].workers[0].phase is Finished);
}

/// The count of keys never decreases: read at two moments of a run, the
/// later reading is at least the earlier one.
pub proof fn lemma_count_never_decreases(trace: Seq<SearchModel>, j: int, k: int)
    requires
        is_run(trace),
        0 <= j <= k < trace.len(),
    ensures
        trace[j].keys_checked <= trace[k].keys_checked,
    decreases k - j,
{
    if j < k {
        lemma_count_never_decreases(trace, j, k - 1);
        lemma_run_is_consistent(trace, k - 1);
        assert(steps(trace[k - 1], trace[k - 1 + 1]));
        lemma_step_keeps_consistent(trace[k - 1], trace[k]);
    }
}

/// At every moment of a run, and so when the last worker has left its loop,
/// the count of keys is the sum of the attempts that the workers counted.
pub proof fn lemma_count_is_sum_of_iterations(trace: Seq<SearchModel>, k: int)
    requires
        is_run(trace),
        0 <= k < trace.len(),
    ensures
        trace[k].keys_checked == total_iterations(trace[k].workers),
{
    lemma_run_is_consistent(trace, k);
}

} // verus!
