use crate::config::Config;
use crate::decimal::{decimal_repr, push_decimal, push_signed_decimal, signed_decimal_repr};
use crate::inference::{outcome_view, ServiceError, ServiceErrorView};
use crate::parser::{parse_category, parse_score, score_of};
use crate::store::{
    Coordinate, NewRecord, NewRecordView, StoreError, STATUS_INTERNAL_SERVER_ERROR, STATUS_OK,
    STATUS_PARTIAL_CONTENT,
};
use crate::text::trimmed;
use vstd::prelude::*;
use vstd::string::*;

verus! {

/// One image with the place where it was taken, waiting to be classified.
#[derive(Clone, Debug)]
pub struct Submission {
    /// The image, in base64.
    pub image: String,
    pub latitude: Coordinate,
    pub longitude: Coordinate,
}

pub struct SubmissionView {
    pub image: Seq<char>,
    pub latitude: Coordinate,
    pub longitude: Coordinate,
}

impl View for Submission {
    type V = SubmissionView;

    open spec fn view(&self) -> SubmissionView {
        SubmissionView { image: self.image@, latitude: self.latitude, longitude: self.longitude }
    }
}

/// One call of the inference service: the credential, the image in base64,
/// the instruction and the model that is asked.
#[derive(Clone, Debug)]
pub struct ClassifyRequest {
    pub api_key: String,
    pub image: String,
    pub prompt: String,
    pub model: String,
}

pub struct ClassifyRequestView {
    pub api_key: Seq<char>,
    pub image: Seq<char>,
    pub prompt: Seq<char>,
    pub model: Seq<char>,
}

impl View for ClassifyRequest {
    type V = ClassifyRequestView;

    open spec fn view(&self) -> ClassifyRequestView {
        ClassifyRequestView {
            api_key: self.api_key@,
            image: self.image@,
            prompt: self.prompt@,
            model: self.model@,
        }
    }
}

/// What the caller is answered: a status and a message.
#[derive(Clone, Debug)]
pub struct Response {
    pub status: u16,
    pub body: String,
}

pub struct ResponseView {
    pub status: u16,
    pub body: Seq<char>,
}

impl View for Response {
    type V = ResponseView;

    open spec fn view(&self) -> ResponseView {
        ResponseView { status: self.status, body: self.body@ }
    }
}

/// Why a report was given up, or was not saved.
#[derive(Clone, Copy, Debug, PartialEq, Eq, Structural)]
pub enum Failure {
    /// No credential for the inference service is configured.
    Config,
    /// One of the two classification tasks did not run to completion.
    Task,
    /// The call that asks for the score failed.
    ScoreService,
    /// The model's answer to the call that asks for the score is no score.
    ScoreParse,
    /// The call that asks for the category failed.
    CategoryService,
    /// Score and category are at hand, but the store did not take the record.
    Store,
}

/// Where a report stands.
#[derive(Clone, Debug)]
pub enum Report {
    /// The submission has come in; nothing has been done with it.
    Received { submission: Submission, api_key: String },
    /// Both classification calls are under way.
    Dispatched { latitude: Coordinate, longitude: Coordinate },
    /// Both calls have been joined and their answers read; the record is on
    /// its way to the store.
    Validated { score: u16, category: String },
    /// The record is stored.
    Persisted { id: i64, score: u16, category: String },
    /// The report has ended without a stored record.
    Failed { reason: Failure },
}

pub enum ReportView {
    Received { submission: SubmissionView, api_key: Seq<char> },
    Dispatched { latitude: Coordinate, longitude: Coordinate },
    Validated { score: u16, category: Seq<char> },
    Persisted { id: i64, score: u16, category: Seq<char> },
    Failed { reason: Failure },
}

impl View for Report {
    type V = ReportView;

    open spec fn view(&self) -> ReportView {
        match self {
            Report::Received { submission, api_key } => ReportView::Received {
                submission: submission@,
                api_key: api_key@,
            },
            Report::Dispatched { latitude, longitude } => ReportView::Dispatched {
                latitude: *latitude,
                longitude: *longitude,
            },
            Report::Validated { score, category } => ReportView::Validated {
                score: *score,
                category: category@,
            },
            Report::Persisted { id, score, category } => ReportView::Persisted {
                id: *id,
                score: *score,
                category: category@,
            },
            Report::Failed { reason } => ReportView::Failed { reason: *reason },
        }
    }
}

/// What the outside world reports back to a report.
#[derive(Debug)]
pub enum Event {
    /// Work on the submission may begin.
    Start,
    /// Both classification calls have ended, each with an answer or a
    /// failure of its own.
    Joined { score: Result<String, ServiceError>, category: Result<String, ServiceError> },
    /// One of the two classification tasks did not run to completion.
    TaskFailed,
    /// The store has answered: the identifier of the new record, or a
    /// failure.
    Stored { result: Result<i64, StoreError> },
}

pub enum EventView {
    Start,
    Joined {
        score: Result<Seq<char>, ServiceErrorView>,
        category: Result<Seq<char>, ServiceErrorView>,
    },
    TaskFailed,
    Stored { result: Result<i64, Seq<char>> },
}

impl View for Event {
    type V = EventView;

    open spec fn view(&self) -> EventView {
        match self {
            Event::Start => EventView::Start,
            Event::Joined { score, category } => EventView::Joined {
                score: outcome_view(*score),
                category: outcome_view(*category),
            },
            Event::TaskFailed => EventView::TaskFailed,
            Event::Stored { result } => EventView::Stored {
                result: match result {
                    Ok(id) => Ok(*id),
                    Err(error) => Err(error@),
                },
            },
        }
    }
}

/// What a report asks the outside world to do next.
#[derive(Clone, Debug)]
pub enum Action {
    /// Make both calls at the same time, wait for both, and report `Joined`,
    /// or `TaskFailed` where one of them did not run to completion.
    Classify { score: ClassifyRequest, category: ClassifyRequest },
    /// Hand the record to the store and report `Stored`.
    Insert { record: NewRecord },
    /// Answer the caller. The report has ended.
    Respond { response: Response },
}

pub enum ActionView {
    Classify { score: ClassifyRequestView, category: ClassifyRequestView },
    Insert { record: NewRecordView },
    Respond { response: ResponseView },
}

impl View for Action {
    type V = ActionView;

    open spec fn view(&self) -> ActionView {
        match self {
            Action::Classify { score, category } => ActionView::Classify {
                score: score@,
                category: category@,
            },
            Action::Insert { record } => ActionView::Insert { record: record@ },
            Action::Respond { response } => ActionView::Respond { response: response@ },
        }
    }
}

/// The model that both calls ask.
pub open spec fn model_name() -> Seq<char> {
    "gpt-4o-mini"@
}

/// The instruction of the call that asks for the score.
pub open spec fn score_prompt() -> Seq<char> {
    "Is there trash in this image? This is meant for a trash detection model, can you give the scene a cleanliness score between 0-100, with 100 being really trash and 0 being extremely clean. ONLY OUTPUT THE SCORE."@
}

/// The instruction of the call that asks for the category.
pub open spec fn category_prompt() -> Seq<char> {
    "Classify the given image of trash into one of 4 categories: hazardous, non-recyclable, recyclable and organic. ONLY OUTPUT THE CATEGORY."@
}

/// The status that every new record carries.
pub open spec fn pending_status() -> Seq<char> {
    "pending"@
}

/// The description of a record whose image was put into `category`.
pub open spec fn description_of(category: Seq<char>) -> Seq<char> {
    "Trash detected - Category: "@ + category
}

/// The message of a report that was stored under `id`.
pub open spec fn stored_body(id: int, score: nat, category: Seq<char>) -> Seq<char> {
    "Successfully uploaded trash report (ID: "@ + signed_decimal_repr(id) + "). Score: "@
        + decimal_repr(score) + ", Category: "@ + category
}

/// The message of a report that was classified but that the store refused
/// with `error`.
pub open spec fn unsaved_body(score: nat, category: Seq<char>, error: Seq<char>) -> Seq<char> {
    "Report processed (Score: "@ + decimal_repr(score) + ", Category: "@ + category
        + ") but failed to save to database: "@ + error
}

/// A report that has been given up for `reason`, and the answer that says so.
pub open spec fn given_up(reason: Failure, body: Seq<char>) -> (ReportView, ActionView) {
    (
        ReportView::Failed { reason },
        ActionView::Respond {
            response: ResponseView { status: STATUS_INTERNAL_SERVER_ERROR, body },
        },
    )
}

/// The first step: without a credential the report is given up at once,
/// else both calls are sent out on the same image.
pub open spec fn dispatch_spec(submission: SubmissionView, api_key: Seq<char>) -> (
    ReportView,
    ActionView,
) {
    if api_key.len() == 0 {
        given_up(Failure::Config, "Server configuration error"@)
    } else {
        (
            ReportView::Dispatched {
                latitude: submission.latitude,
                longitude: submission.longitude,
            },
            ActionView::Classify {
                score: ClassifyRequestView {
                    api_key,
                    image: submission.image,
                    prompt: score_prompt(),
                    model: model_name(),
                },
                category: ClassifyRequestView {
                    api_key,
                    image: submission.image,
                    prompt: category_prompt(),
                    model: model_name(),
                },
            },
        )
    }
}

/// A report whose tasks did not both run to completion is given up.
pub open spec fn task_failed_spec() -> (ReportView, ActionView) {
    given_up(Failure::Task, "Failed to process image"@)
}

/// What the two joined outcomes come to. They are looked at in a fixed
/// order, whichever call ended first: the score call's failure, then an
/// unreadable score, then the category call's failure. Only where none of the
/// three holds is a record made.
pub open spec fn validate_spec(
    latitude: Coordinate,
    longitude: Coordinate,
    score: Result<Seq<char>, ServiceErrorView>,
    category: Result<Seq<char>, ServiceErrorView>,
) -> (ReportView, ActionView) {
    match score {
        Err(error) => given_up(
            Failure::ScoreService,
            "Failed to get cleanliness score: "@ + error.message(),
        ),
        Ok(text) => match score_of(text) {
            Err(_) => given_up(Failure::ScoreParse, "Invalid score format received: "@ + text),
            Ok(value) => match category {
                Err(error) => given_up(
                    Failure::CategoryService,
                    "Failed to get category: "@ + error.message(),
                ),
                Ok(label) => (
                    ReportView::Validated { score: value, category: trimmed(label) },
                    ActionView::Insert {
                        record: NewRecordView {
                            latitude,
                            longitude,
                            description: description_of(trimmed(label)),
                            score: value as i32,
                            status: pending_status(),
                        },
                    },
                ),
            },
        },
    }
}

/// The last step. A stored record ends the report well. A failure of the
/// store ends it too, but the answer still carries the score and the category,
/// under a status of its own.
pub open spec fn persist_spec(score: u16, category: Seq<char>, result: Result<i64, Seq<char>>) -> (
    ReportView,
    ActionView,
) {
    match result {
        Ok(id) => (
            ReportView::Persisted { id, score, category },
            ActionView::Respond {
                response: ResponseView {
                    status: STATUS_OK,
                    body: stored_body(id as int, score as nat, category),
                },
            },
        ),
        Err(error) => (
            ReportView::Failed { reason: Failure::Store },
            ActionView::Respond {
                response: ResponseView {
                    status: STATUS_PARTIAL_CONTENT,
                    body: unsaved_body(score as nat, category, error),
                },
            },
        ),
    }
}

/// Where `report` goes on `event` and what it asks for, or `None` where
/// `report` is not waiting for `event`.
pub open spec fn step_spec(report: ReportView, event: EventView) -> Option<
    (ReportView, ActionView),
> {
    match (report, event) {
        (ReportView::Received { submission, api_key }, EventView::Start) => Some(
            dispatch_spec(submission, api_key),
        ),
        (ReportView::Dispatched { latitude, longitude }, EventView::Joined { score, category }) => {
            Some(validate_spec(latitude, longitude, score, category))
        },
        (ReportView::Dispatched { .. }, EventView::TaskFailed) => Some(task_failed_spec()),
        (ReportView::Validated { score, category }, EventView::Stored { result }) => Some(
            persist_spec(score, category, result),
        ),
        _ => None,
    }
}

fn give_up(reason: Failure, body: String) -> (r: (Report, Action))
    ensures
        (r.0@, r.1@) == given_up(reason, body@),
{
    (
        Report::Failed { reason },
        Action::Respond { response: Response { status: STATUS_INTERNAL_SERVER_ERROR, body } },
    )
}

/// Takes the first step on a submission: gives it up where `api_key` is
/// empty, else sends out both calls.
pub fn dispatch(submission: Submission, api_key: String) -> (r: (Report, Action))
    ensures
        (r.0@, r.1@) == dispatch_spec(submission@, api_key@),
{
    if api_key.as_str().is_empty() {
        give_up(Failure::Config, String::from_str("Server configuration error"))
    } else {
        let score = ClassifyRequest {
            api_key: api_key.clone(),
            image: submission.image.clone(),
            prompt: String::from_str(
                "Is there trash in this image? This is meant for a trash detection model, can you give the scene a cleanliness score between 0-100, with 100 being really trash and 0 being extremely clean. ONLY OUTPUT THE SCORE.",
            ),
            model: String::from_str("gpt-4o-mini"),
        };
        let category = ClassifyRequest {
            api_key,
            image: submission.image,
            prompt: String::from_str(
                "Classify the given image of trash into one of 4 categories: hazardous, non-recyclable, recyclable and organic. ONLY OUTPUT THE CATEGORY.",
            ),
            model: String::from_str("gpt-4o-mini"),
        };
        (
            Report::Dispatched { latitude: submission.latitude, longitude: submission.longitude },
            Action::Classify { score, category },
        )
    }
}

/// Gives up a report whose tasks did not both run to completion.
pub fn task_failed() -> (r: (Report, Action))
    ensures
        (r.0@, r.1@) == task_failed_spec(),
{
    give_up(Failure::Task, String::from_str("Failed to process image"))
}

/// Reads the two joined outcomes, the score's first, and makes the record
/// where both are good.
pub fn validate(
    latitude: Coordinate,
    longitude: Coordinate,
    score: Result<String, ServiceError>,
    category: Result<String, ServiceError>,
) -> (r: (Report, Action))
    ensures
        (r.0@, r.1@) == validate_spec(
            latitude,
            longitude,
            outcome_view(score),
            outcome_view(category),
        ),
{
    match score {
        Err(error) => give_up(
            Failure::ScoreService,
            String::from_str("Failed to get cleanliness score: ").concat(error.message().as_str()),
        ),
        Ok(text) => match parse_score(text.as_str()) {
            Err(_) => give_up(
                Failure::ScoreParse,
                String::from_str("Invalid score format received: ").concat(text.as_str()),
            ),
            Ok(value) => match category {
                Err(error) => give_up(
                    Failure::CategoryService,
                    String::from_str("Failed to get category: ").concat(error.message().as_str()),
                ),
                Ok(label) => {
                    let category = parse_category(label.as_str());
                    let record = NewRecord {
                        latitude,
                        longitude,
                        description: String::from_str("Trash detected - Category: ").concat(
                            category.as_str(),
                        ),
                        score: value as i32,
                        status: String::from_str("pending"),
                    };
                    (Report::Validated { score: value, category }, Action::Insert { record })
                },
            },
        },
    }
}

/// Ends a validated report with what the store answered.
pub fn persist(score: u16, category: String, result: Result<i64, StoreError>) -> (r: (
    Report,
    Action,
))
    ensures
        (r.0@, r.1@) == persist_spec(
            score,
            category@,
            match result {
                Ok(id) => Ok(id),
                Err(error) => Err(error@),
            },
        ),
{
    match result {
        Ok(id) => {
            let mut body = String::from_str("Successfully uploaded trash report (ID: ");
            push_signed_decimal(&mut body, id);
            body.append("). Score: ");
            push_decimal(&mut body, score as u64);
            body.append(", Category: ");
            body.append(category.as_str());
            (
                Report::Persisted { id, score, category },
                Action::Respond { response: Response { status: STATUS_OK, body } },
            )
        },
        Err(error) => {
            let mut body = String::from_str("Report processed (Score: ");
            push_decimal(&mut body, score as u64);
            body.append(", Category: ");
            body.append(category.as_str());
            body.append(") but failed to save to database: ");
            body.append(error.detail.as_str());
            (
                Report::Failed { reason: Failure::Store },
                Action::Respond { response: Response { status: STATUS_PARTIAL_CONTENT, body } },
            )
        },
    }
}

impl Report {
    /// The report on a submission that has just come in, with the credential
    /// that `config` holds.
    pub fn receive(submission: Submission, config: &Config) -> (r: Report)
        ensures
            r@ == (ReportView::Received { submission: submission@, api_key: config.openai_key@ }),
    {
        Report::Received { submission, api_key: config.openai_key.clone() }
    }

    /// Whether the report has ended: it is stored, or it has failed.
    pub fn is_final(&self) -> (r: bool)
        ensures
            r == (self@ is Persisted || self@ is Failed),
    {
        match self {
            Report::Persisted { .. } => true,
            Report::Failed { .. } => true,
            _ => false,
        }
    }

    /// Takes the step that `event` calls for. Returns `None`, and does
    /// nothing, where the report is not waiting for `event`.
    pub fn step(self, event: Event) -> (r: Option<(Report, Action)>)
        ensures
            match step_spec(self@, event@) {
                Some(next) => r matches Some(taken) && (taken.0@, taken.1@) == next,
                None => r is None,
            },
    {
        match (self, event) {
            (Report::Received { submission, api_key }, Event::Start) => Some(
                dispatch(submission, api_key),
            ),
            (Report::Dispatched { latitude, longitude }, Event::Joined { score, category }) => {
                Some(validate(latitude, longitude, score, category))
            },
            (Report::Dispatched { .. }, Event::TaskFailed) => Some(task_failed()),
            (Report::Validated { score, category }, Event::Stored { result }) => Some(
                persist(score, category, result),
            ),
            _ => None,
        }
    }
}

/// Where both calls fail, the score call's failure is the one reported: its
/// own failure, or else its unreadable answer, however the category call failed.
pub proof fn lemma_score_failure_reported_first(
    latitude: Coordinate,
    longitude: Coordinate,
    score: Result<Seq<char>, ServiceErrorView>,
    category: Result<Seq<char>, ServiceErrorView>,
)
    requires
        score is Err || score_of(score->Ok_0) is Err,
        category is Err,
    ensures
        validate_spec(latitude, longitude, score, category).0 == (ReportView::Failed {
            reason: if score is Err {
                Failure::ScoreService
            } else {
                Failure::ScoreParse
            },
        }),
{
}

/// A record goes to the store only from a report that has been validated;
/// a report that is given up before never writes. The caller is answered when,
/// and only when, the report has ended, and the status of the answer tells how:
/// success for a stored record, partial content where only the store failed, a
/// server failure for every other end.
pub proof fn lemma_step_outcomes(report: ReportView, event: EventView)
    requires
        step_spec(report, event) is Some,
    ensures
        ({
            let (next, action) = step_spec(report, event)->Some_0;
            &&& !(next is Received)
            &&& action is Classify <==> next is Dispatched
            &&& action is Insert <==> next is Validated
            &&& action is Respond <==> (next is Persisted || next is Failed)
            &&& action matches ActionView::Respond { response } ==> {
                &&& response.status == STATUS_OK <==> next is Persisted
                &&& response.status == STATUS_PARTIAL_CONTENT <==> next == (ReportView::Failed {
                    reason: Failure::Store,
                })
                &&& response.status == STATUS_OK || response.status == STATUS_PARTIAL_CONTENT
                    || response.status == STATUS_INTERNAL_SERVER_ERROR
            }
        }),
{
}

/// A report that has ended waits for nothing.
pub proof fn lemma_final_is_stuck(report: ReportView, event: EventView)
    requires
        report is Persisted || report is Failed,
    ensures
        step_spec(report, event) is None,
{
}

} // verus!
