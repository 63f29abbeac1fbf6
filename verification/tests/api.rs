use bettervote::api::{create, poll_info, vote};
use bettervote::creation::CreateAPIRequestData;
use bettervote::response::{bad_json, PollInfo, Response};
use bettervote::voting::VoteAPIRequestData;
use bettervote::ballot::VoterIp;
use bettervote::database::MemoryDatabase;

const NOW: u64 = 1_700_000_000;

fn names(list: &[&str]) -> Vec<String> {
    list.iter().map(|s| s.to_string()).collect()
}

fn localhost_ip() -> Option<VoterIp> {
    Some(VoterIp::v4(127, 0, 0, 1))
}

fn create_request(
    name: &str,
    candidates: &[&str],
    duration: i64,
    num_winners: i64,
    id: Option<&str>,
    protection: Option<&str>,
) -> CreateAPIRequestData {
    CreateAPIRequestData {
        name: name.to_string(),
        candidates: names(candidates),
        duration,
        num_winners,
        id: id.map(|s| s.to_string()),
        protection: protection.map(|s| s.to_string()),
    }
}

fn choices(list: &[&str]) -> VoteAPIRequestData {
    VoteAPIRequestData { choices: names(list) }
}

/// Creates a poll and expects success; gives the identifier.
fn post_create(db: &mut MemoryDatabase, request: CreateAPIRequestData) -> String {
    match create(db, request, NOW) {
        Response::Success(id) => id,
        Response::Failure(error) => panic!("no success: {:?}", error),
    }
}

/// Casts a ballot from the local address and expects success.
fn post_vote(db: &mut MemoryDatabase, id: &str, list: &[&str], now: u64) {
    let response = vote(db, id.to_string(), choices(list), localhost_ip(), now);
    assert_eq!(response, Response::Success(()), "no success: {:?}", response);
}

fn get_info(db: &mut MemoryDatabase, id: &str, now: u64) -> PollInfo {
    match poll_info(db, id.to_string(), now) {
        Response::Success(info) => info,
        Response::Failure(error) => panic!("no success: {:?}", error),
    }
}

fn get_num_votes(db: &mut MemoryDatabase, id: &str) -> usize {
    get_info(db, id, NOW).num_votes
}

fn assert_failure<T: std::fmt::Debug>(response: &Response<T>) {
    assert_eq!(response.success(), false, "{:?}", response);
    assert!(!response.error().is_empty());
}

#[test]
fn api_vote_happy_path() {
    let mut db = MemoryDatabase::new();

    let id = post_create(
        &mut db,
        create_request(
            "Voting Test - Happy Path",
            &["A", "B", "C", "D"],
            10000,
            1,
            Some("vote_happy"),
            None,
        ),
    );
    assert_eq!(id, "vote_happy");

    assert_eq!(get_num_votes(&mut db, "vote_happy"), 0);

    post_vote(&mut db, "vote_happy", &["A", "B", "C", "D"], NOW);
    assert_eq!(get_num_votes(&mut db, "vote_happy"), 1);

    post_vote(&mut db, "vote_happy", &["D", "C", "B"], NOW);
    assert_eq!(get_num_votes(&mut db, "vote_happy"), 2);

    assert_eq!(get_info(&mut db, "vote_happy", NOW).ended, false);
}

#[test]
fn api_vote_invalid_candidates() {
    let mut db = MemoryDatabase::new();

    post_create(
        &mut db,
        create_request(
            "Voting Test - Invalid Candidates",
            &["A", "B", "C", "D", "E"],
            10000,
            1,
            Some("vote_invalid_candidates"),
            None,
        ),
    );

    let bad_ballots: [&[&str]; 4] = [
        // All invalid
        &["I'm not real"],
        // One invalid
        &["A", "I'm not real", "B"],
        // No candidates
        &[],
        // Duplicate candidates
        &["A", "B", "A", "C"],
    ];
    for bad_ballot in bad_ballots {
        // without an address
        let response =
            vote(&mut db, "vote_invalid_candidates".to_string(), choices(bad_ballot), None, NOW);
        assert_failure(&response);
        // and with one
        let response = vote(
            &mut db,
            "vote_invalid_candidates".to_string(),
            choices(bad_ballot),
            localhost_ip(),
            NOW,
        );
        assert_failure(&response);
    }
    assert_eq!(get_num_votes(&mut db, "vote_invalid_candidates"), 0);
}

#[test]
fn api_vote_nonexistent_poll() {
    let mut db = MemoryDatabase::new();

    let response =
        vote(&mut db, "vote_nonexistent_poll".to_string(), choices(&["A", "B", "C", "D"]), None, NOW);
    assert_failure(&response);

    let response = vote(
        &mut db,
        "vote_nonexistent_poll".to_string(),
        choices(&["A", "B", "C", "D"]),
        localhost_ip(),
        NOW,
    );
    assert_failure(&response);
    assert_eq!(response.error(), "No poll was found with the ID 'vote_nonexistent_poll'.");
}

#[test]
fn api_vote_expired_poll() {
    let mut db = MemoryDatabase::new();

    post_create(
        &mut db,
        create_request(
            "Voting Test - Expired Poll",
            &["A", "B", "C", "D"],
            5,
            1,
            Some("vote_expired"),
            None,
        ),
    );
    let before_expiry =
        vote(&mut db, "vote_expired".to_string(), choices(&["A", "B", "C", "D"]), localhost_ip(), NOW);
    assert_eq!(before_expiry.success(), true);

    // five seconds later
    let after_expiry = vote(
        &mut db,
        "vote_expired".to_string(),
        choices(&["A", "B", "C", "D"]),
        localhost_ip(),
        NOW + 5,
    );
    assert_failure(&after_expiry);
    assert_eq!(after_expiry.error(), "This poll has ended and no longer accepts votes.");
}

#[test]
fn api_vote_ip_duplicate() {
    let mut db = MemoryDatabase::new();

    post_create(
        &mut db,
        create_request(
            "Voting Test - Duplicate IP",
            &["A", "B", "C", "D"],
            10000,
            1,
            Some("vote_ip_duplicate"),
            Some("ip"),
        ),
    );

    let response =
        vote(&mut db, "vote_ip_duplicate".to_string(), choices(&["A"]), localhost_ip(), NOW);
    assert_eq!(response.success(), true);

    // without an address
    let response =
        vote(&mut db, "vote_ip_duplicate".to_string(), choices(&["A", "B", "C", "D"]), None, NOW);
    assert_failure(&response);

    // from the same address again
    let response = vote(
        &mut db,
        "vote_ip_duplicate".to_string(),
        choices(&["A", "B", "C", "D"]),
        localhost_ip(),
        NOW,
    );
    assert_failure(&response);
    assert_eq!(response.error(), "You have already voted in this poll.");

    // from another address
    let response = vote(
        &mut db,
        "vote_ip_duplicate".to_string(),
        choices(&["A", "B", "C", "D"]),
        Some(VoterIp::v4(127, 0, 0, 2)),
        NOW,
    );
    assert_eq!(response.success(), true);
    assert_eq!(get_num_votes(&mut db, "vote_ip_duplicate"), 2);
}

#[test]
fn api_create_happy_path() {
    let mut db = MemoryDatabase::new();

    let response_create_1 = create(
        &mut db,
        create_request(
            "Test Poll 1",
            &["Candidate 1", "Candidate 2", "Candidate 3"],
            100000,
            1,
            None,
            None,
        ),
        NOW,
    );
    assert_eq!(response_create_1.success(), true);
    let test_poll_1_id = match response_create_1 {
        Response::Success(id) => id,
        Response::Failure(error) => panic!("no success: {:?}", error),
    };
    assert!(!test_poll_1_id.is_empty());

    let response_create_2 = create(
        &mut db,
        create_request(
            "Test Poll 2",
            &["Candidate 3", "Candidate 5", "Candidate 4"],
            10000,
            2,
            Some("testID"),
            Some("ip"),
        ),
        NOW,
    );
    assert_eq!(response_create_2, Response::Success("testID".to_string()));

    let info_1 = get_info(&mut db, &test_poll_1_id, NOW);
    assert_eq!(info_1.name, "Test Poll 1");
    assert_eq!(info_1.candidates, vec!["Candidate 1", "Candidate 2", "Candidate 3"]);
    assert_eq!(info_1.ending_time - info_1.creation_time, 100000);
    assert_eq!(info_1.num_winners, 1);
    assert_eq!(info_1.protection, None);
    assert_eq!(info_1.ended, false);

    let info_2 = get_info(&mut db, "testID", NOW);
    assert_eq!(info_2.name, "Test Poll 2");
    assert_eq!(info_2.candidates, vec!["Candidate 3", "Candidate 5", "Candidate 4"]);
    assert_eq!(info_2.ending_time - info_2.creation_time, 10000);
    assert_eq!(info_2.num_winners, 2);
    assert_eq!(info_2.protection, Some("ip".to_string()));
    assert_eq!(info_2.ended, false);
}

#[test]
fn api_create_missing_params() {
    let some_name = || Some("Test Poll 1".to_string());
    let some_candidates = || Some(names(&["Candidate 1", "Candidate 2", "Candidate 3"]));

    let bad_requests = [
        // No name
        CreateAPIRequestData::from_fields(None, some_candidates(), Some(100000), Some(1), None, None),
        // No numWinners
        CreateAPIRequestData::from_fields(
            some_name(),
            some_candidates(),
            Some(100000),
            None,
            None,
            None,
        ),
        // No duration
        CreateAPIRequestData::from_fields(some_name(), some_candidates(), None, Some(1), None, None),
        // No candidates
        CreateAPIRequestData::from_fields(some_name(), None, Some(100000), Some(1), None, None),
    ];
    for bad_request in bad_requests {
        assert_eq!(bad_request, None);
    }
    assert_failure(&bad_json());

    let complete = CreateAPIRequestData::from_fields(
        some_name(),
        some_candidates(),
        Some(100000),
        Some(1),
        None,
        None,
    );
    assert_eq!(
        complete,
        Some(create_request(
            "Test Poll 1",
            &["Candidate 1", "Candidate 2", "Candidate 3"],
            100000,
            1,
            None,
            None
        ))
    );
    assert_eq!(VoteAPIRequestData::from_fields(None), None);
    assert_eq!(VoteAPIRequestData::from_fields(Some(names(&["A"]))), Some(choices(&["A"])));
}

#[test]
fn api_create_id_exists() {
    let mut db = MemoryDatabase::new();

    post_create(
        &mut db,
        create_request(
            "Test Poll 1",
            &["Candidate 1", "Candidate 2", "Candidate 3"],
            100000,
            1,
            Some("create_already_exists"),
            None,
        ),
    );

    let response = create(
        &mut db,
        create_request("A Different Name", &["A"], 10000, 2, Some("create_already_exists"), None),
        NOW,
    );
    assert_failure(&response);

    // a request that is in order but for the identifier
    let response = create(
        &mut db,
        create_request(
            "A Different Name",
            &["A", "B", "C"],
            10000,
            2,
            Some("create_already_exists"),
            None,
        ),
        NOW,
    );
    assert_failure(&response);
    assert_eq!(response.error(), "A poll already exists with the ID 'create_already_exists'.");
    assert_eq!(get_info(&mut db, "create_already_exists", NOW).name, "Test Poll 1");
}

#[test]
fn api_create_not_enough_candidates() {
    let mut db = MemoryDatabase::new();

    let response =
        create(&mut db, create_request("Test Poll 1", &["Candidate 1"], 100000, 1, None, None), NOW);
    assert_failure(&response);
    assert_eq!(response.error(), "The number of candidates must be between 2 and 1,024.");
}

#[test]
fn api_create_negative_duration() {
    let mut db = MemoryDatabase::new();

    let response = create(
        &mut db,
        create_request(
            "Test Poll 1",
            &["Candidate 1", "Candidate 2", "Candidate 3"],
            -2,
            1,
            None,
            None,
        ),
        NOW,
    );
    assert_failure(&response);
    assert_eq!(response.error(), "The duration must be a positive, nonzero number.");
}

#[test]
fn api_create_bad_num_winners() {
    let mut db = MemoryDatabase::new();

    for bad_num_winners in [-1, 0, 3, 5] {
        let response = create(
            &mut db,
            create_request(
                "Test Poll",
                &["Candidate 1", "Candidate 2", "Candidate 3"],
                100000,
                bad_num_winners,
                None,
                None,
            ),
            NOW,
        );
        assert_failure(&response);
    }
}

#[test]
fn api_create_bad_id() {
    let mut db = MemoryDatabase::new();

    for bad_id in ["", " ", "a b", "a b c", "morethan32charactersaaaaaaaaaaaaa", "&a&&", "a??b"] {
        let response = create(
            &mut db,
            create_request(
                "Test Poll",
                &["Candidate 1", "Candidate 2", "Candidate 3"],
                100000,
                1,
                Some(bad_id),
                None,
            ),
            NOW,
        );
        assert_eq!(response.success(), false, "ID `{}` was allowed", bad_id);
        assert!(!response.error().is_empty());
    }
}

#[test]
fn api_create_bad_protection() {
    let mut db = MemoryDatabase::new();

    let response = create(
        &mut db,
        create_request(
            "Test Poll",
            &["Candidate 1", "Candidate 2", "Candidate 3"],
            100000,
            1,
            None,
            Some("invalid"),
        ),
        NOW,
    );
    assert_failure(&response);
    assert_eq!(response.error(), "The protection must be either 'ip' or 'none'.");
}

#[test]
fn api_poll_info_happy_path() {
    let mut db = MemoryDatabase::new();

    // ongoing
    post_create(
        &mut db,
        create_request(
            "Poll Info Test - Ongoing Happy Path",
            &["A", "B", "C"],
            10000,
            1,
            Some("ongoing_happy"),
            None,
        ),
    );

    let ongoing = get_info(&mut db, "ongoing_happy", NOW);
    assert_eq!(ongoing.name, "Poll Info Test - Ongoing Happy Path");
    assert_eq!(ongoing.candidates, vec!["A", "B", "C"]);
    assert_eq!(ongoing.ending_time - ongoing.creation_time, 10000);
    assert_eq!(ongoing.num_winners, 1);
    assert_eq!(ongoing.num_votes, 0);
    assert_eq!(ongoing.protection, None);
    assert_eq!(ongoing.ended, false);
    assert_eq!(ongoing.winners, None);

    // ended
    post_create(
        &mut db,
        create_request(
            "Poll Info Test - Ended Happy Path",
            &["A", "B", "C"],
            2,
            1,
            Some("ended_happy"),
            None,
        ),
    );
    post_vote(&mut db, "ended_happy", &["A"], NOW);

    // poll should be over three seconds later
    let ended = get_info(&mut db, "ended_happy", NOW + 3);
    assert_eq!(ended.name, "Poll Info Test - Ended Happy Path");
    assert_eq!(ended.candidates, vec!["A", "B", "C"]);
    assert_eq!(ended.ending_time - ended.creation_time, 2);
    assert_eq!(ended.num_winners, 1);
    assert_eq!(ended.protection, None);
    assert_eq!(ended.num_votes, 1);
    assert_eq!(ended.ended, true);
    assert_eq!(ended.winners, Some(vec!["A".to_string()]));
}

#[test]
fn api_poll_info_nonexistent() {
    let mut db = MemoryDatabase::new();

    let response = poll_info(&mut db, "nonexistent".to_string(), NOW);
    assert_eq!(response.success(), false);
    assert_eq!(response, Response::Failure("No poll was found with the ID 'nonexistent'.".to_string()));
}
