use chia_vanity::address::derive_address;
use chia_vanity::search::{
    addresses_derived, attempt, Action, Event, Outcome, Phase, SearchState, Worker,
};

/// Takes the pending step of `worker` on `state`; `matched` is what a probe
/// finds.
fn drive(state: &mut SearchState, worker: &mut Worker, matched: bool) -> Action {
    let action = worker.pending();
    let event = match state.apply(action) {
        Some(event) => event,
        None => Event::Probed(matched),
    };
    worker.step(event)
}

#[test]
fn a_search_starts_clear() {
    let state = SearchState::new();
    assert!(!state.is_found());
    assert_eq!(state.keys_checked(), 0);
    let worker = Worker::new();
    assert_eq!(worker.phase(), Phase::Polling);
    assert_eq!(worker.iterations(), 0);
    assert_eq!(worker.pending(), Action::ReadFlag);
}

#[test]
fn only_the_first_claim_succeeds() {
    let mut state = SearchState::new();
    assert!(state.try_claim());
    assert!(state.is_found());
    assert!(!state.try_claim());
    assert!(!state.try_claim());
    assert!(state.is_found());
    assert_eq!(state.keys_checked(), 0);
}

#[test]
fn attempts_are_counted_one_by_one() {
    let mut state = SearchState::new();
    let mut last = state.keys_checked();
    for expected in 1..=10u64 {
        state.record_attempt();
        assert!(state.keys_checked() >= last);
        assert_eq!(state.keys_checked(), expected);
        last = state.keys_checked();
    }
    assert!(!state.is_found());
}

#[test]
fn shared_state_answers_each_step() {
    let mut state = SearchState::new();
    assert_eq!(state.apply(Action::ReadFlag), Some(Event::FlagRead(false)));
    assert_eq!(state.apply(Action::Count), Some(Event::Counted));
    assert_eq!(state.keys_checked(), 1);
    assert_eq!(state.apply(Action::Probe), None);
    assert_eq!(state.apply(Action::Report), None);
    assert_eq!(state.apply(Action::Stop), None);
    assert_eq!(state.keys_checked(), 1);
    assert!(!state.is_found());
    assert_eq!(state.apply(Action::Claim), Some(Event::Claimed(true)));
    assert_eq!(state.apply(Action::Claim), Some(Event::Claimed(false)));
    assert_eq!(state.apply(Action::ReadFlag), Some(Event::FlagRead(true)));
}

#[test]
fn worker_goes_round_its_loop_until_a_hit() {
    let mut worker = Worker::new();
    for round in 1..=3u64 {
        assert_eq!(worker.step(Event::FlagRead(false)), Action::Count);
        assert_eq!(worker.phase(), Phase::Counting);
        assert_eq!(worker.step(Event::Counted), Action::Probe);
        assert_eq!(worker.iterations(), round);
        assert_eq!(worker.step(Event::Probed(false)), Action::ReadFlag);
        assert_eq!(worker.phase(), Phase::Polling);
    }
    assert_eq!(worker.step(Event::FlagRead(false)), Action::Count);
    assert_eq!(worker.step(Event::Counted), Action::Probe);
    assert_eq!(worker.step(Event::Probed(true)), Action::Claim);
    assert_eq!(worker.step(Event::Claimed(true)), Action::Report);
    assert_eq!(worker.phase(), Phase::Finished(Outcome::Won));
    assert_eq!(worker.iterations(), 4);
}

#[test]
fn worker_stops_when_the_flag_is_set() {
    let mut worker = Worker::new();
    assert_eq!(worker.step(Event::FlagRead(true)), Action::Stop);
    assert_eq!(worker.phase(), Phase::Finished(Outcome::Cancelled));
    assert_eq!(worker.iterations(), 0);
}

#[test]
fn worker_that_loses_the_claim_reports_nothing() {
    let mut worker = Worker::new();
    worker.step(Event::FlagRead(false));
    worker.step(Event::Counted);
    worker.step(Event::Probed(true));
    assert_eq!(worker.step(Event::Claimed(false)), Action::Stop);
    assert_eq!(worker.phase(), Phase::Finished(Outcome::Lost));
    assert_eq!(worker.iterations(), 1);
}

#[test]
fn event_of_another_phase_changes_nothing() {
    let mut worker = Worker::new();
    assert_eq!(worker.step(Event::Counted), Action::ReadFlag);
    assert_eq!(worker.step(Event::Probed(true)), Action::ReadFlag);
    assert_eq!(worker.step(Event::Claimed(true)), Action::ReadFlag);
    assert_eq!(worker.phase(), Phase::Polling);
    assert_eq!(worker.iterations(), 0);
    worker.step(Event::FlagRead(true));
    for event in [Event::FlagRead(false), Event::Counted, Event::Probed(true), Event::Claimed(true)]
    {
        assert_eq!(worker.step(event), Action::Stop);
        assert_eq!(worker.phase(), Phase::Finished(Outcome::Cancelled));
    }
}

#[test]
fn of_workers_that_hit_together_one_wins() {
    let mut state = SearchState::new();
    let mut workers = vec![Worker::new(), Worker::new(), Worker::new(), Worker::new()];
    // All read the clear flag, count and hit before any of them claims.
    for _ in 0..3 {
        for worker in workers.iter_mut() {
            drive(&mut state, worker, true);
        }
    }
    assert!(workers.iter().all(|w| w.phase() == Phase::Claiming));
    assert!(!state.is_found());
    let mut rises = 0;
    for index in [2usize, 0, 3, 1] {
        let before = state.is_found();
        drive(&mut state, &mut workers[index], true);
        if !before && state.is_found() {
            rises += 1;
        }
    }
    assert_eq!(rises, 1);
    assert!(state.is_found());
    let won = workers.iter().filter(|w| w.phase() == Phase::Finished(Outcome::Won)).count();
    let lost = workers.iter().filter(|w| w.phase() == Phase::Finished(Outcome::Lost)).count();
    assert_eq!((won, lost), (1, 3));
    assert_eq!(workers[2].phase(), Phase::Finished(Outcome::Won));
    assert_eq!(workers[2].pending(), Action::Report);
    let reports = workers.iter().filter(|w| w.pending() == Action::Report).count();
    assert_eq!(reports, 1);
}

#[test]
fn count_is_the_sum_of_the_workers_counts() {
    let mut state = SearchState::new();
    let mut workers = vec![Worker::new(), Worker::new(), Worker::new()];
    // An uneven interleaving: worker 0 runs much more often than the others,
    // and worker 1 hits on its third key.
    let order =
        [0usize, 0, 1, 0, 2, 0, 0, 1, 0, 0, 1, 2, 0, 1, 0, 0, 2, 1, 0, 1, 1, 1, 0, 2, 1, 0, 1];
    let mut last = 0;
    for &index in order.iter() {
        let matched = index == 1 && workers[1].iterations() == 3;
        if workers[index].pending() != Action::Stop && workers[index].pending() != Action::Report {
            drive(&mut state, &mut workers[index], matched);
        }
        assert!(state.keys_checked() >= last);
        last = state.keys_checked();
        let sum: u64 = workers.iter().map(|w| w.iterations()).sum();
        assert_eq!(state.keys_checked(), sum);
    }
    assert_eq!(workers[1].phase(), Phase::Finished(Outcome::Won));
    // The others see the flag at their next poll and leave.
    for _ in 0..8 {
        for worker in workers.iter_mut() {
            if worker.pending() != Action::Stop && worker.pending() != Action::Report {
                drive(&mut state, worker, false);
            }
        }
    }
    assert!(workers.iter().all(|w| matches!(w.phase(), Phase::Finished(_))));
    let sum: u64 = workers.iter().map(|w| w.iterations()).sum();
    assert_eq!(state.keys_checked(), sum);
    let won = workers.iter().filter(|w| w.phase() == Phase::Finished(Outcome::Won)).count();
    assert_eq!(won, 1);
}

#[test]
fn a_whole_search_with_one_worker() {
    let desired = vec!["q".to_string()];
    let mut user_entropy = String::from("entropy of the user");
    let mut state = SearchState::new();
    let mut worker = Worker::new();
    let mut hit = None;
    let mut action = worker.pending();
    let mut rounds = 0;
    while action != Action::Report && action != Action::Stop {
        let event = match state.apply(action) {
            Some(event) => event,
            None => {
                hit = attempt(&mut user_entropy, &desired, 500);
                Event::Probed(hit.is_some())
            }
        };
        action = worker.step(event);
        rounds += 1;
        assert!(rounds < 200);
    }
    assert_eq!(action, Action::Report);
    let hit = hit.unwrap();
    assert!(hit.address.ends_with("q"));
    assert!(hit.index < 500);
    assert_eq!(derive_address(&hit.key.wallet(), hit.index), hit.address);
    assert_eq!(user_entropy, "entropy of the user");
    assert!(state.is_found());
    assert_eq!(state.keys_checked(), worker.iterations());
}

#[test]
fn attempt_returns_the_first_match_of_a_fresh_key() {
    let desired = vec!["q".to_string(), "p".to_string(), "z".to_string(), "r".to_string()];
    let mut user_entropy = String::from("text");
    let first = attempt(&mut user_entropy, &desired, 500).unwrap();
    let second = attempt(&mut user_entropy, &desired, 500).unwrap();
    assert_eq!(user_entropy, "text");
    assert_ne!(first.key.mnemonic(), second.key.mnemonic());
    for hit in [&first, &second] {
        assert!(desired.iter().any(|suffix| hit.address.ends_with(suffix.as_str())));
        assert_eq!(
            hit.key.vanity_address(&desired, &500),
            Some((hit.address.clone(), hit.index))
        );
        assert_eq!(hit.key.vanity_address(&desired, &hit.index), None);
    }
}

#[test]
fn attempt_without_indices_finds_nothing() {
    let mut user_entropy = String::new();
    assert!(attempt(&mut user_entropy, &vec![String::new()], 0).is_none());
    assert!(attempt(&mut user_entropy, &vec![], 3).is_none());
    let hit = attempt(&mut user_entropy, &vec![String::new()], 1).unwrap();
    assert_eq!(hit.index, 0);
}

#[test]
fn addresses_are_keys_times_indices() {
    assert_eq!(addresses_derived(0, 500), 0);
    assert_eq!(addresses_derived(7, 500), 3500);
    assert_eq!(addresses_derived(9, 0), 0);
    assert_eq!(addresses_derived(10_000_000, 500), 5_000_000_000);
    assert_eq!(
        addresses_derived(u64::MAX, u32::MAX),
        18446744073709551615u128 * 4294967295u128
    );
}
