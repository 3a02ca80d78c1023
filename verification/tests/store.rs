use trashtrack::store::{
    top_records_response, Coordinate, Record, StoreError, STATUS_INTERNAL_SERVER_ERROR, STATUS_OK,
    STATUS_PARTIAL_CONTENT, TOP_RECORDS_LIMIT,
};

fn record(id: i64, score: i32) -> Record {
    Record {
        id,
        created_at: 1_700_000_000_000_000 + id,
        latitude: Coordinate::from_bits(10.0f64.to_bits()),
        longitude: Coordinate::from_bits(20.0f64.to_bits()),
        description: format!("Trash detected - Category: {}", id),
        score,
        status: "pending".to_string(),
    }
}

#[test]
fn status_codes() {
    assert_eq!(STATUS_OK, 200);
    assert_eq!(STATUS_PARTIAL_CONTENT, 206);
    assert_eq!(STATUS_INTERNAL_SERVER_ERROR, 500);
    assert_eq!(TOP_RECORDS_LIMIT, 5);
}

#[test]
fn listing_is_passed_on() {
    let answer = top_records_response(Ok(vec![record(2, 90), record(1, 40)]));
    assert_eq!(answer.status, 200);
    assert_eq!(answer.records.len(), 2);
    assert_eq!(answer.records[0].id, 2);
    assert_eq!(answer.records[0].score, 90);
    assert_eq!(answer.records[1].id, 1);
    assert_eq!(answer.records[1].description, "Trash detected - Category: 1");
}

#[test]
fn failed_listing_degrades_to_empty() {
    let answer = top_records_response(Err(StoreError { detail: "down".to_string() }));
    assert_eq!(answer.status, 500);
    assert!(answer.records.is_empty());
}
