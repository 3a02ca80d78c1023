use trashtrack::inference::ServiceError;
use trashtrack::memory::MemoryStore;
use trashtrack::report::{Action, Event, Report, Submission};
use trashtrack::store::{top_records_response, Coordinate, NewRecord, Record, TOP_RECORDS_LIMIT};
use trashtrack::config::Config;

fn new_record(score: i32, label: &str) -> NewRecord {
    NewRecord {
        latitude: Coordinate::from_bits(51.5f64.to_bits()),
        longitude: Coordinate::from_bits((-0.12f64).to_bits()),
        description: format!("Trash detected - Category: {}", label),
        score,
        status: "pending".to_string(),
    }
}

fn scores(records: &[Record]) -> Vec<i32> {
    records.iter().map(|r| r.score).collect()
}

fn ids(records: &[Record]) -> Vec<i64> {
    records.iter().map(|r| r.id).collect()
}

#[test]
fn empty_store_lists_nothing() {
    let store = MemoryStore::new(10);
    assert_eq!(store.len(), 0);
    assert!(store.top(5).is_empty());
    assert!(store.top(0).is_empty());
}

#[test]
fn inserted_record_comes_back_unchanged() {
    let mut store = MemoryStore::new(10);
    let id = store.insert(new_record(42, "Organic"), 1_700_000_000_000_000).unwrap();
    assert_eq!(id, 1);
    assert_eq!(store.len(), 1);
    let listing = store.top(1);
    assert_eq!(listing.len(), 1);
    let found = &listing[0];
    assert_eq!(found.id, 1);
    assert_eq!(found.created_at, 1_700_000_000_000_000);
    assert_eq!(f64::from_bits(found.latitude.to_bits()), 51.5);
    assert_eq!(f64::from_bits(found.longitude.to_bits()), -0.12);
    assert_eq!(found.description, "Trash detected - Category: Organic");
    assert_eq!(found.score, 42);
    assert_eq!(found.status, "pending");
}

#[test]
fn identifiers_count_up_from_one() {
    let mut store = MemoryStore::new(10);
    for expected in 1..=5i64 {
        assert_eq!(store.insert(new_record(10, "x"), 0).unwrap(), expected);
    }
    assert_eq!(store.len(), 5);
}

#[test]
fn top_is_sorted_descending_and_truncated() {
    let mut store = MemoryStore::new(100);
    for score in [30, 90, 10, 70, 50, 20, 80, 60] {
        store.insert(new_record(score, "x"), 0).unwrap();
    }
    let listing = store.top(TOP_RECORDS_LIMIT);
    assert_eq!(scores(&listing), vec![90, 80, 70, 60, 50]);
    assert_eq!(ids(&listing), vec![2, 7, 4, 8, 5]);
    assert_eq!(scores(&store.top(100)), vec![90, 80, 70, 60, 50, 30, 20, 10]);
    assert_eq!(scores(&store.top(1)), vec![90]);
    assert!(store.top(0).is_empty());
}

#[test]
fn fewer_records_than_asked_for() {
    let mut store = MemoryStore::new(100);
    store.insert(new_record(5, "a"), 0).unwrap();
    store.insert(new_record(9, "b"), 0).unwrap();
    assert_eq!(scores(&store.top(5)), vec![9, 5]);
}

#[test]
fn equal_scores_keep_their_order_of_arrival() {
    let mut store = MemoryStore::new(100);
    for score in [50, 70, 50, 70, 50, -3] {
        store.insert(new_record(score, "x"), 0).unwrap();
    }
    let listing = store.top(6);
    assert_eq!(scores(&listing), vec![70, 70, 50, 50, 50, -3]);
    assert_eq!(ids(&listing), vec![2, 4, 1, 3, 5, 6]);
    assert_eq!(ids(&store.top(3)), vec![2, 4, 1]);
}

#[test]
fn outranked_record_is_not_listed() {
    let mut store = MemoryStore::new(100);
    store.insert(new_record(90, "a"), 0).unwrap();
    store.insert(new_record(80, "b"), 0).unwrap();
    let before = ids(&store.top(2));
    store.insert(new_record(80, "c"), 0).unwrap();
    assert_eq!(ids(&store.top(2)), before);
    assert_eq!(ids(&store.top(3)), vec![1, 2, 3]);
}

#[test]
fn full_store_refuses_and_stays_as_it_was() {
    let mut store = MemoryStore::new(2);
    store.insert(new_record(1, "a"), 0).unwrap();
    store.insert(new_record(2, "b"), 0).unwrap();
    let error = store.insert(new_record(3, "c"), 0).unwrap_err();
    assert_eq!(error.detail, "store is full");
    assert_eq!(store.len(), 2);
    assert_eq!(scores(&store.top(5)), vec![2, 1]);
    let mut none = MemoryStore::new(0);
    assert!(none.insert(new_record(1, "a"), 0).is_err());
}

#[test]
fn listing_of_a_store_is_answered_with_success() {
    let mut store = MemoryStore::new(10);
    store.insert(new_record(3, "a"), 0).unwrap();
    let answer = top_records_response(Ok(store.top(TOP_RECORDS_LIMIT)));
    assert_eq!(answer.status, 200);
    assert_eq!(answer.records.len(), 1);
}

fn next(seed: &mut u64) -> u64 {
    *seed = seed.wrapping_mul(6364136223846793005).wrapping_add(1442695040888963407);
    *seed >> 33
}

fn shuffled(n: usize, seed: &mut u64) -> Vec<usize> {
    let mut order: Vec<usize> = (0..n).collect();
    for i in (1..n).rev() {
        let j = (next(seed) % (i as u64 + 1)) as usize;
        order.swap(i, j);
    }
    order
}

#[test]
fn interleaved_submissions_stay_apart() {
    let labels = ["Hazardous", "NonRecyclable", "Recyclable", "Organic"];
    let config = Config {
        webserver_address: None,
        webserver_port: None,
        openai_key: "sk-test".to_string(),
        supabase_url: String::new(),
        subabase_key: String::new(),
    };
    let mut seed = 2024u64;
    let count = 100usize;
    let expected: Vec<(u16, &str)> = (0..count)
        .map(|_| ((next(&mut seed) % 101) as u16, labels[(next(&mut seed) % 4) as usize]))
        .collect();
    let mut reports: Vec<Option<Report>> = Vec::new();
    let mut actions: Vec<Option<Action>> = Vec::new();
    for i in 0..count {
        let submission = Submission {
            image: format!("image-{}", i),
            latitude: Coordinate::from_bits(i as u64),
            longitude: Coordinate::from_bits(1000 + i as u64),
        };
        let (report, action) = Report::receive(submission, &config).step(Event::Start).unwrap();
        reports.push(Some(report));
        actions.push(Some(action));
    }
    for i in shuffled(count, &mut seed) {
        match actions[i].take().unwrap() {
            Action::Classify { score, category } => {
                assert_eq!(score.image, format!("image-{}", i));
                assert_eq!(category.image, format!("image-{}", i));
            }
            other => panic!("{:?}", other),
        }
        let score: Result<String, ServiceError> = Ok(format!(" {}\n", expected[i].0));
        let category: Result<String, ServiceError> = Ok(format!("{} ", expected[i].1));
        let joined = Event::Joined { score, category };
        let (report, action) = reports[i].take().unwrap().step(joined).unwrap();
        reports[i] = Some(report);
        actions[i] = Some(action);
    }
    let mut store = MemoryStore::new(1000);
    let mut given: Vec<i64> = vec![0; count];
    for i in shuffled(count, &mut seed) {
        let record = match actions[i].take().unwrap() {
            Action::Insert { record } => record,
            other => panic!("{:?}", other),
        };
        let result = store.insert(record, i as i64);
        let (report, action) = reports[i].take().unwrap().step(Event::Stored { result }).unwrap();
        match report {
            Report::Persisted { id, score, category } => {
                given[i] = id;
                assert_eq!(score, expected[i].0);
                assert_eq!(category, expected[i].1);
            }
            other => panic!("{:?}", other),
        }
        match action {
            Action::Respond { response } => {
                assert_eq!(response.status, 200);
                assert_eq!(
                    response.body,
                    format!(
                        "Successfully uploaded trash report (ID: {}). Score: {}, Category: {}",
                        given[i], expected[i].0, expected[i].1
                    )
                );
            }
            other => panic!("{:?}", other),
        }
    }
    let mut seen = given.clone();
    seen.sort();
    seen.dedup();
    assert_eq!(seen.len(), count);
    let all = store.top(count);
    assert_eq!(all.len(), count);
    for record in &all {
        let i = given.iter().position(|id| *id == record.id).unwrap();
        assert_eq!(record.score, expected[i].0 as i32);
        assert_eq!(record.description, format!("Trash detected - Category: {}", expected[i].1));
        assert_eq!(record.latitude.to_bits(), i as u64);
        assert_eq!(record.longitude.to_bits(), 1000 + i as u64);
        assert_eq!(record.created_at, i as i64);
        assert_eq!(record.status, "pending");
    }
    for pair in all.windows(2) {
        assert!(pair[0].score >= pair[1].score);
    }
}
