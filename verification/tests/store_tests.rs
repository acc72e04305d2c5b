use poll_store::poll::{PollError, PollRecord};
use poll_store::store::{PollStore, Snapshot};

fn opts(labels: &[&str]) -> Vec<String> {
    labels.iter().map(|s| s.to_string()).collect()
}

#[test]
fn create_then_get_returns_options_and_zero_tally() {
    let mut store = PollStore::new();
    let id = store.create_poll(opts(&["A", "B"])).unwrap();
    let data = store.get_poll(&id).unwrap();
    assert_eq!(data.options, vec!["A".to_string(), "B".to_string()]);
    assert_eq!(data.tally, vec![0, 0]);
}

#[test]
fn create_with_no_options_is_invalid_input() {
    let mut store = PollStore::new();
    assert_eq!(store.create_poll(Vec::new()), Err(PollError::InvalidInput));
}

#[test]
fn create_with_empty_option_label_is_invalid_input() {
    let mut store = PollStore::new();
    assert_eq!(store.create_poll(opts(&["A", ""])), Err(PollError::InvalidInput));
}

#[test]
fn vote_on_unknown_poll_is_not_found() {
    let mut store = PollStore::new();
    let unknown = "42".to_string();
    let r = store.vote_poll(&unknown, 0, "f1".to_string());
    assert_eq!(r, Err(PollError::NotFound));
}

#[test]
fn vote_with_out_of_range_option_is_invalid_option() {
    let mut store = PollStore::new();
    let id = store.create_poll(opts(&["A", "B"])).unwrap();
    let r = store.vote_poll(&id, 99, "f1".to_string());
    assert_eq!(r, Err(PollError::InvalidOption));
}

#[test]
fn second_vote_from_same_fingerprint_is_already_voted() {
    let mut store = PollStore::new();
    let id = store.create_poll(opts(&["A", "B"])).unwrap();
    assert_eq!(store.vote_poll(&id, 0, "f1".to_string()), Ok(()));
    assert_eq!(store.vote_poll(&id, 1, "f1".to_string()), Err(PollError::AlreadyVoted));
    let data = store.get_poll(&id).unwrap();
    assert_eq!(data.tally, vec![1, 0]);
}

#[test]
fn option_check_runs_before_duplicate_check() {
    let mut store = PollStore::new();
    let id = store.create_poll(opts(&["A", "B"])).unwrap();
    assert_eq!(store.vote_poll(&id, 0, "f1".to_string()), Ok(()));
    // An out-of-range option from an already-recorded fingerprint reports
    // the option error: option validity is checked first.
    assert_eq!(store.vote_poll(&id, 99, "f1".to_string()), Err(PollError::InvalidOption));
}

#[test]
fn voted_on_tracks_votes_and_unknown_poll_is_not_found() {
    let mut store = PollStore::new();
    let id = store.create_poll(opts(&["A"])).unwrap();
    let f = "f1".to_string();
    assert_eq!(store.voted_on(&f, &id), Ok(false));
    assert_eq!(store.vote_poll(&id, 0, f.clone()), Ok(()));
    assert_eq!(store.voted_on(&f, &id), Ok(true));
    let unknown = "9".to_string();
    assert_eq!(store.voted_on(&f, &unknown), Err(PollError::NotFound));
}

#[test]
fn distinct_fingerprints_each_count_exactly_once() {
    let mut store = PollStore::new();
    let id = store.create_poll(opts(&["yes", "no"])).unwrap();
    assert_eq!(store.vote_poll(&id, 0, "f1".to_string()), Ok(()));
    assert_eq!(store.vote_poll(&id, 1, "f2".to_string()), Ok(()));
    assert_eq!(store.vote_poll(&id, 0, "f3".to_string()), Ok(()));
    let data = store.get_poll(&id).unwrap();
    assert_eq!(data.tally, vec![2, 1]);
    assert_eq!(data.tally.iter().sum::<u64>(), 3);
}

#[test]
fn polls_created_in_sequence_get_distinct_ids() {
    let mut store = PollStore::new();
    let id1 = store.create_poll(opts(&["A"])).unwrap();
    let id2 = store.create_poll(opts(&["B"])).unwrap();
    assert_ne!(id1, id2);
    assert_eq!(store.get_poll(&id1).unwrap().options, vec!["A".to_string()]);
    assert_eq!(store.get_poll(&id2).unwrap().options, vec!["B".to_string()]);
}

#[test]
fn ids_are_decimal_counter_values() {
    let mut store = PollStore::new();
    assert_eq!(store.create_poll(opts(&["A"])).unwrap(), "0".to_string());
    assert_eq!(store.create_poll(opts(&["A"])).unwrap(), "1".to_string());
    assert_eq!(poll_store::ids::encode_id(1234567890), "1234567890".to_string());
}

#[test]
fn restart_restores_tally_and_voters_exactly() {
    let mut store = PollStore::new();
    let id = store.create_poll(opts(&["A", "B"])).unwrap();
    assert_eq!(store.vote_poll(&id, 1, "f1".to_string()), Ok(()));
    let image = store.snapshot();

    let reloaded = PollStore::restore(image).unwrap();
    let data = reloaded.get_poll(&id).unwrap();
    assert_eq!(data.options, vec!["A".to_string(), "B".to_string()]);
    assert_eq!(data.tally, vec![0, 1]);
    assert_eq!(reloaded.voted_on(&"f1".to_string(), &id), Ok(true));
    assert_eq!(reloaded.voted_on(&"f2".to_string(), &id), Ok(false));
}

#[test]
fn restored_store_keeps_creating_fresh_ids() {
    let mut store = PollStore::new();
    let id1 = store.create_poll(opts(&["A"])).unwrap();
    let mut reloaded = PollStore::restore(store.snapshot()).unwrap();
    let id2 = reloaded.create_poll(opts(&["B"])).unwrap();
    assert_ne!(id1, id2);
}

#[test]
fn restore_rejects_inconsistent_images() {
    // Tally total does not match the number of voters.
    let bad = Snapshot {
        next_id: 1,
        polls: vec![PollRecord {
            id_num: 0,
            options: vec!["A".to_string()],
            tally: vec![2],
            voters: vec!["f1".to_string()],
        }],
    };
    assert!(PollStore::restore(bad).is_none());

    // A counter value not below the stored next id.
    let bad = Snapshot {
        next_id: 0,
        polls: vec![PollRecord {
            id_num: 0,
            options: vec!["A".to_string()],
            tally: vec![0],
            voters: vec![],
        }],
    };
    assert!(PollStore::restore(bad).is_none());

    // Two records sharing a counter value.
    let rec = || PollRecord {
        id_num: 0,
        options: vec!["A".to_string()],
        tally: vec![0],
        voters: vec![],
    };
    let bad = Snapshot { next_id: 2, polls: vec![rec(), rec()] };
    assert!(PollStore::restore(bad).is_none());

    // A fingerprint recorded twice.
    let bad = Snapshot {
        next_id: 1,
        polls: vec![PollRecord {
            id_num: 0,
            options: vec!["A".to_string()],
            tally: vec![2],
            voters: vec!["f1".to_string(), "f1".to_string()],
        }],
    };
    assert!(PollStore::restore(bad).is_none());
}

#[test]
fn restore_accepts_a_well_formed_image() {
    let image = Snapshot {
        next_id: 3,
        polls: vec![PollRecord {
            id_num: 2,
            options: vec!["A".to_string(), "B".to_string()],
            tally: vec![1, 1],
            voters: vec!["f1".to_string(), "f2".to_string()],
        }],
    };
    let store = PollStore::restore(image).unwrap();
    let data = store.get_poll(&"2".to_string()).unwrap();
    assert_eq!(data.tally, vec![1, 1]);
}

#[test]
fn get_poll_returns_a_copy_not_a_handle() {
    let mut store = PollStore::new();
    let id = store.create_poll(opts(&["A"])).unwrap();
    let mut data = store.get_poll(&id).unwrap();
    data.tally[0] = 99;
    assert_eq!(store.get_poll(&id).unwrap().tally, vec![0]);
}

#[test]
fn a_fresh_store_has_room_to_create() {
    let store = PollStore::new();
    assert!(store.can_create());
}

#[test]
fn error_messages_name_each_failure() {
    assert_eq!(PollError::InvalidInput.message(), "invalid input");
    assert_eq!(PollError::NotFound.message(), "this poll doesn't exist");
    assert_eq!(PollError::InvalidOption.message(), "invalid option");
    assert_eq!(PollError::AlreadyVoted.message(), "already voted");
    assert_eq!(PollError::PersistenceFailure.message(), "unknown error");
}
