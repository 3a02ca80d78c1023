use vstd::prelude::*;
use vstd::string::*;

verus! {

/// The status of an answer that carries what was asked for.
pub const STATUS_OK: u16 = 200;

/// The status of an answer that carries only a part of what was asked for.
pub const STATUS_PARTIAL_CONTENT: u16 = 206;

/// The status of an answer to a request that the server failed on.
pub const STATUS_INTERNAL_SERVER_ERROR: u16 = 500;

/// How many records the listing of the highest scores returns.
pub const TOP_RECORDS_LIMIT: usize = 5;

/// An angle in degrees, held as the bit pattern of an IEEE 754 double. It is
/// carried from a submission into its record as it stands.
#[derive(Clone, Copy, Debug, PartialEq, Eq, Structural)]
pub struct Coordinate {
    pub bits: u64,
}

impl Coordinate {
    /// The coordinate with the bit pattern `bits`.
    pub fn from_bits(bits: u64) -> (r: Coordinate)
        ensures
            r.bits == bits,
    {
        Coordinate { bits }
    }

    /// The coordinate's bit pattern.
    pub fn to_bits(self) -> (r: u64)
        ensures
            r == self.bits,
    {
        self.bits
    }
}

/// A failure of the store, with the text that describes it.
#[derive(Clone, Debug)]
pub struct StoreError {
    pub detail: String,
}

impl View for StoreError {
    type V = Seq<char>;

    open spec fn view(&self) -> Seq<char> {
        self.detail@
    }
}

/// What is handed to the store for a new record. The store adds the
/// identifier and the time of creation.
#[derive(Clone, Debug)]
pub struct NewRecord {
    pub latitude: Coordinate,
    pub longitude: Coordinate,
    pub description: String,
    pub score: i32,
    pub status: String,
}

pub struct NewRecordView {
    pub latitude: Coordinate,
    pub longitude: Coordinate,
    pub description: Seq<char>,
    pub score: i32,
    pub status: Seq<char>,
}

impl View for NewRecord {
    type V = NewRecordView;

    open spec fn view(&self) -> NewRecordView {
        NewRecordView {
            latitude: self.latitude,
            longitude: self.longitude,
            description: self.description@,
            score: self.score,
            status: self.status@,
        }
    }
}

/// One stored report.
#[derive(Clone, Debug)]
pub struct Record {
    /// The identifier that the store gave.
    pub id: i64,
    /// When the store took the record, in microseconds since the Unix epoch.
    pub created_at: i64,
    pub latitude: Coordinate,
    pub longitude: Coordinate,
    pub description: String,
    pub score: i32,
    pub status: String,
}

pub struct RecordView {
    pub id: i64,
    pub created_at: i64,
    pub latitude: Coordinate,
    pub longitude: Coordinate,
    pub description: Seq<char>,
    pub score: i32,
    pub status: Seq<char>,
}

impl View for Record {
    type V = RecordView;

    open spec fn view(&self) -> RecordView {
        RecordView {
            id: self.id,
            created_at: self.created_at,
            latitude: self.latitude,
            longitude: self.longitude,
            description: self.description@,
            score: self.score,
            status: self.status@,
        }
    }
}

impl RecordView {
    /// What was handed to the store for this record.
    pub open spec fn content(self) -> NewRecordView {
        NewRecordView {
            latitude: self.latitude,
            longitude: self.longitude,
            description: self.description,
            score: self.score,
            status: self.status,
        }
    }
}

/// The views of `records`, in their order.
pub open spec fn record_views(records: Seq<Record>) -> Seq<RecordView> {
    records.map_values(|record: Record| record@)
}

/// The answer to a request for the records with the highest scores.
#[derive(Clone, Debug)]
pub struct TopRecords {
    pub status: u16,
    pub records: Vec<Record>,
}

/// Turns what the store returned for the listing into the answer: the
/// records as they came, or no record at all and the status of a server
/// failure.
pub fn top_records_response(listing: Result<Vec<Record>, StoreError>) -> (r: TopRecords)
    ensures
        match listing {
            Ok(records) => r.status == STATUS_OK && r.records@ == records@,
            Err(_) => r.status == STATUS_INTERNAL_SERVER_ERROR && r.records@.len() == 0,
        },
{
    match listing {
        Ok(records) => TopRecords { status: STATUS_OK, records },
        Err(_) => TopRecords { status: STATUS_INTERNAL_SERVER_ERROR, records: Vec::new() },
    }
}

} // verus!
