//! Getting a card from Trello: at most three requests, and what comes of them.

use vstd::prelude::*;
use vstd::string::*;

use crate::message::{no_reports, one_report, report_views, Report, ReportView};
use crate::outside::{status_is_success, status_reason, status_text};
use crate::text::{decimal, decimal_of};

verus! {

/// Full card object returned by the Trello REST API.
#[derive(Debug)]
pub struct TrelloCard {
    pub desc: String,
}

/// How often a card is asked for.
pub const ATTEMPTS: u32 = 3;

/// How far the fetching of a card has come.
#[derive(Clone, Copy, Debug)]
pub enum FetchState {
    /// The request with the given number, counted from one, is under way.
    Requesting { attempt: u32 },
    /// The body of a good response is being read.
    Reading,
    /// The result is known.
    Done,
}

/// What came of the last action.
#[derive(Debug)]
pub enum FetchEvent {
    /// The request failed.
    Failed { cause: String },
    /// A response arrived.
    Responded { status: u16 },
    /// The body was read as a card.
    Parsed { card: TrelloCard },
    /// The body could not be read as a card.
    Unparsed { cause: String },
}

/// What is to be done next.
#[derive(Debug)]
pub enum FetchAction {
    /// Send the request.
    Get,
    /// Read the body of the response as a card.
    Read,
    /// Return the result.
    Return { result: Result<TrelloCard, String> },
}

/// The next state, what is to be done, and what the operator is told.
#[derive(Debug)]
pub struct FetchStep {
    pub state: FetchState,
    pub action: FetchAction,
    pub reports: Vec<Report>,
}

/// The texts of a `FetchEvent`; a card is its description.
pub enum FetchEventView {
    Failed { cause: Seq<char> },
    Responded { status: u16 },
    Parsed { desc: Seq<char> },
    Unparsed { cause: Seq<char> },
}

/// The texts of a `FetchAction`.
pub enum FetchActionView {
    Get,
    Read,
    Return { result: Result<Seq<char>, Seq<char>> },
}

/// The texts of a `FetchStep`.
pub struct FetchStepView {
    pub state: FetchState,
    pub action: FetchActionView,
    pub reports: Seq<ReportView>,
}

impl View for FetchEvent {
    type V = FetchEventView;

    open spec fn view(&self) -> FetchEventView {
        match self {
            FetchEvent::Failed { cause } => FetchEventView::Failed { cause: cause@ },
            FetchEvent::Responded { status } => FetchEventView::Responded { status: *status },
            FetchEvent::Parsed { card } => FetchEventView::Parsed { desc: card.desc@ },
            FetchEvent::Unparsed { cause } => FetchEventView::Unparsed { cause: cause@ },
        }
    }
}

impl View for FetchAction {
    type V = FetchActionView;

    open spec fn view(&self) -> FetchActionView {
        match self {
            FetchAction::Get => FetchActionView::Get,
            FetchAction::Read => FetchActionView::Read,
            FetchAction::Return { result: Ok(card) } => FetchActionView::Return {
                result: Ok(card.desc@),
            },
            FetchAction::Return { result: Err(e) } => FetchActionView::Return { result: Err(e@) },
        }
    }
}

impl View for FetchStep {
    type V = FetchStepView;

    open spec fn view(&self) -> FetchStepView {
        FetchStepView {
            state: self.state,
            action: self.action@,
            reports: report_views(self.reports@),
        }
    }
}

impl FetchState {
    /// The number of the request under way is one of those that are made.
    pub open spec fn valid(self) -> bool {
        self matches FetchState::Requesting { attempt } ==> 1 <= attempt <= ATTEMPTS
    }

    /// `event` is one that can follow in this state.
    pub open spec fn expects(self, event: FetchEventView) -> bool {
        match self {
            FetchState::Requesting { .. } => match event {
                FetchEventView::Failed { .. } => true,
                FetchEventView::Responded { status } => 100 <= status <= 999,
                _ => false,
            },
            FetchState::Reading => match event {
                FetchEventView::Parsed { .. } => true,
                FetchEventView::Unparsed { .. } => true,
                _ => false,
            },
            FetchState::Done => false,
        }
    }

    /// How many requests can still follow the one that was made last.
    pub open spec fn requests_left(self) -> int {
        match self {
            FetchState::Requesting { attempt } => ATTEMPTS - attempt,
            _ => 0,
        }
    }
}

/// The address of a card.
pub open spec fn card_address(card_id: Seq<char>, app_key: Seq<char>, token: Seq<char>) -> Seq<
    char,
> {
    "https://api.trello.com/1/cards/"@ + card_id + "?key="@ + app_key + "&token="@ + token
}

/// The error for a response with a bad status, given the status as text.
pub open spec fn status_error(status: Seq<char>) -> Seq<char> {
    "Trello API returned HTTP "@ + status
}

/// What the operator is told of a request that failed.
pub open spec fn attempt_report(attempt: u32, card_id: Seq<char>, cause: Seq<char>) -> ReportView {
    ReportView::Error(
        "Attempt "@ + decimal(attempt as nat) + "/3 failed for card '"@ + card_id + "': "@ + cause,
    )
}

/// The step that returns `result`.
pub open spec fn returning(
    result: Result<Seq<char>, Seq<char>>,
    reports: Seq<ReportView>,
) -> FetchStepView {
    FetchStepView {
        state: FetchState::Done,
        action: FetchActionView::Return { result },
        reports,
    }
}

/// What follows from `event`: a failed request is repeated until three were made,
/// a response is read if its status is a success, and its body is the result.
pub open spec fn fetch_step(
    state: FetchState,
    event: FetchEventView,
    card_id: Seq<char>,
) -> FetchStepView {
    match event {
        FetchEventView::Failed { cause } => {
            let attempt = state->attempt;
            let reports = seq![attempt_report(attempt, card_id, cause)];
            if attempt < ATTEMPTS {
                FetchStepView {
                    state: FetchState::Requesting { attempt: (attempt + 1) as u32 },
                    action: FetchActionView::Get,
                    reports,
                }
            } else {
                returning(Err("Request failed: "@ + cause), reports)
            }
        },
        FetchEventView::Responded { status } => if 200 <= status < 300 {
            FetchStepView {
                state: FetchState::Reading,
                action: FetchActionView::Read,
                reports: Seq::empty(),
            }
        } else {
            returning(
                Err(status_error(decimal(status as nat) + " "@ + status_reason(status))),
                Seq::empty(),
            )
        },
        FetchEventView::Parsed { desc } => returning(Ok(desc), Seq::empty()),
        FetchEventView::Unparsed { cause } => returning(
            Err("Failed to parse card JSON: "@ + cause),
            Seq::empty(),
        ),
    }
}

/// Each of the events is one that can follow, when they happen one after the other.
pub open spec fn can_happen(
    state: FetchState,
    events: Seq<FetchEventView>,
    card_id: Seq<char>,
) -> bool
    decreases events.len(),
{
    events.len() > 0 ==> state.expects(events[0]) && can_happen(
        fetch_step(state, events[0], card_id).state,
        events.drop_first(),
        card_id,
    )
}

/// How many requests follow from the events.
pub open spec fn requests_made(
    state: FetchState,
    events: Seq<FetchEventView>,
    card_id: Seq<char>,
) -> int
    decreases events.len(),
{
    if events.len() == 0 {
        0
    } else {
        let step = fetch_step(state, events[0], card_id);
        requests_made(step.state, events.drop_first(), card_id) + if step.action is Get {
            1int
        } else {
            0int
        }
    }
}

proof fn lemma_requests_made(state: FetchState, events: Seq<FetchEventView>, card_id: Seq<char>)
    requires
        state.valid(),
        can_happen(state, events, card_id),
    ensures
        0 <= requests_made(state, events, card_id) <= state.requests_left(),
    decreases events.len(),
{
    if events.len() > 0 {
        lemma_requests_made(
            fetch_step(state, events[0], card_id).state,
            events.drop_first(),
            card_id,
        );
    }
}

/// Whatever happens, no more than two requests follow the first one.
pub proof fn law_at_most_three_requests(events: Seq<FetchEventView>, card_id: Seq<char>)
    requires
        can_happen(FetchState::Requesting { attempt: 1 }, events, card_id),
    ensures
        requests_made(FetchState::Requesting { attempt: 1 }, events, card_id) <= 2,
{
    lemma_requests_made(FetchState::Requesting { attempt: 1 }, events, card_id);
}

/// Only a failed request is repeated; a response, whatever it says, is the last.
pub proof fn law_response_is_final(state: FetchState, event: FetchEventView, card_id: Seq<char>)
    requires
        state.valid(),
        state.expects(event),
        !(event is Failed),
    ensures
        !(fetch_step(state, event, card_id).action is Get),
        !(fetch_step(state, event, card_id).state is Requesting),
{
}

/// After three failures the cause of the last is the error.
pub proof fn law_third_failure_is_returned(
    first: Seq<char>,
    second: Seq<char>,
    third: Seq<char>,
    card_id: Seq<char>,
)
    ensures
        ({
            let one = fetch_step(
                FetchState::Requesting { attempt: 1 },
                FetchEventView::Failed { cause: first },
                card_id,
            );
            let two = fetch_step(one.state, FetchEventView::Failed { cause: second }, card_id);
            let three = fetch_step(two.state, FetchEventView::Failed { cause: third }, card_id);
            &&& one.action is Get
            &&& two.action is Get
            &&& three.action == FetchActionView::Return { result: Err("Request failed: "@ + third) }
        }),
{
}

/// The card that is returned is the card that was read, with its whole description;
/// a body that could not be read is returned as an error.
pub proof fn law_read_card_is_returned(
    state: FetchState,
    desc: Seq<char>,
    cause: Seq<char>,
    card_id: Seq<char>,
)
    ensures
        ({
            let step = fetch_step(state, FetchEventView::Parsed { desc }, card_id);
            &&& step.action == FetchActionView::Return { result: Ok(desc) }
            &&& step.state is Done
            &&& step.reports.len() == 0
        }),
        ({
            let step = fetch_step(state, FetchEventView::Unparsed { cause }, card_id);
            &&& step.action == FetchActionView::Return {
                result: Err("Failed to parse card JSON: "@ + cause),
            }
            &&& step.state is Done
            &&& step.reports.len() == 0
        }),
{
}

/// The body of a response is read exactly if its status is within 200-299; any other
/// status is returned as an error, in full.
pub proof fn law_status_decides(state: FetchState, status: u16, card_id: Seq<char>)
    ensures
        ({
            let step = fetch_step(state, FetchEventView::Responded { status }, card_id);
            &&& step.reports.len() == 0
            &&& 200 <= status <= 299 ==> step.action is Read && step.state is Reading
            &&& status < 200 || 299 < status ==> step.state is Done && step.action
                == FetchActionView::Return {
                result: Err(
                    "Trello API returned HTTP "@ + decimal(status as nat) + " "@ + status_reason(
                        status,
                    ),
                ),
            }
        }),
{
    assert("Trello API returned HTTP "@ + (decimal(status as nat) + " "@ + status_reason(status))
        =~= "Trello API returned HTTP "@ + decimal(status as nat) + " "@ + status_reason(status));
}

/// The operator is told of every failed request, with its number, the card and the
/// cause. The first and the second are followed by a further request; the cause of
/// the third is returned.
pub proof fn law_failures_are_told(attempt: u32, cause: Seq<char>, card_id: Seq<char>)
    requires
        1 <= attempt <= 3,
    ensures
        ({
            let step = fetch_step(
                FetchState::Requesting { attempt },
                FetchEventView::Failed { cause },
                card_id,
            );
            &&& step.reports.len() == 1
            &&& step.reports[0] == ReportView::Error(
                "Attempt "@ + decimal(attempt as nat) + "/3 failed for card '"@ + card_id + "': "@
                    + cause,
            )
            &&& attempt < 3 ==> step.action is Get && step.state == FetchState::Requesting {
                attempt: (attempt + 1) as u32,
            }
            &&& attempt == 3 ==> step.state is Done && step.action == FetchActionView::Return {
                result: Err("Request failed: "@ + cause),
            }
        }),
{
}

/// A card is asked for at Trello's API, by its identifier, with key and token.
pub proof fn law_card_address(card_id: Seq<char>, app_key: Seq<char>, token: Seq<char>)
    ensures
        card_address(card_id, app_key, token) == "https://api.trello.com/1/cards/"@ + card_id
            + "?key="@ + app_key + "&token="@ + token,
{
}

/// A request that is under way fails or is responded to, with any status there is;
/// the body of a response is read as a card or is not; nothing follows the result.
pub proof fn law_fetch_events(
    attempt: u32,
    cause: Seq<char>,
    desc: Seq<char>,
    status: u16,
    event: FetchEventView,
)
    ensures
        1 <= attempt <= 3 <==> (FetchState::Requesting { attempt }).valid(),
        FetchState::Reading.valid(),
        FetchState::Done.valid(),
        (FetchState::Requesting { attempt }).expects(FetchEventView::Failed { cause }),
        100 <= status <= 999 ==> (FetchState::Requesting { attempt }).expects(
            FetchEventView::Responded { status },
        ),
        FetchState::Reading.expects(FetchEventView::Parsed { desc }),
        FetchState::Reading.expects(FetchEventView::Unparsed { cause }),
        !FetchState::Done.expects(event),
{
}

/// What happens, what is done and what follows are seen by their texts; a card is
/// seen by its whole description.
pub proof fn law_fetch_views(text: String, status: u16, card: TrelloCard, step: FetchStep)
    ensures
        (FetchEvent::Failed { cause: text })@ == (FetchEventView::Failed { cause: text@ }),
        (FetchEvent::Responded { status })@ == (FetchEventView::Responded { status }),
        (FetchEvent::Parsed { card })@ == (FetchEventView::Parsed { desc: card.desc@ }),
        (FetchEvent::Unparsed { cause: text })@ == (FetchEventView::Unparsed { cause: text@ }),
        FetchAction::Get@ == FetchActionView::Get,
        FetchAction::Read@ == FetchActionView::Read,
        (FetchAction::Return { result: Ok(card) })@ == (FetchActionView::Return {
            result: Ok(card.desc@),
        }),
        (FetchAction::Return { result: Err(text) })@ == (FetchActionView::Return {
            result: Err(text@),
        }),
        step@.state == step.state,
        step@.action == step.action@,
        step@.reports == report_views(step.reports@),
{
}

/// The address of a card.
pub fn card_url(card_id: &str, app_key: &str, token: &str) -> (r: String)
    ensures
        r@ == card_address(card_id@, app_key@, token@),
{
    let mut r = "https://api.trello.com/1/cards/".to_owned();
    r.append(card_id);
    r.append("?key=");
    r.append(app_key);
    r.append("&token=");
    r.append(token);
    r
}

/// The error for a response with a bad status, given the status as text.
pub fn bad_status(status: &str) -> (r: String)
    ensures
        r@ == status_error(status@),
{
    let mut r = "Trello API returned HTTP ".to_owned();
    r.append(status);
    r
}

fn attempt_failed(attempt: u32, card_id: &str, cause: &str) -> (r: Report)
    ensures
        r@ == attempt_report(attempt, card_id@, cause@),
{
    let mut text = "Attempt ".to_owned();
    text.append(decimal_of(attempt as u64).as_str());
    text.append("/3 failed for card '");
    text.append(card_id);
    text.append("': ");
    text.append(cause);
    Report::Error(text)
}

impl FetchStep {
    fn finish(result: Result<TrelloCard, String>, reports: Vec<Report>) -> (r: Self)
        ensures
            r@ == returning(
                match result {
                    Ok(card) => Ok(card.desc@),
                    Err(e) => Err(e@),
                },
                report_views(reports@),
            ),
    {
        FetchStep { state: FetchState::Done, action: FetchAction::Return { result }, reports }
    }

    /// The first step: the first of the requests.
    pub fn first() -> (r: Self)
        ensures
            r@ == (FetchStepView {
                state: FetchState::Requesting { attempt: 1 },
                action: FetchActionView::Get,
                reports: Seq::empty(),
            }),
            r.state.valid(),
    {
        FetchStep {
            state: FetchState::Requesting { attempt: 1 },
            action: FetchAction::Get,
            reports: no_reports(),
        }
    }

    /// The step that follows when `event` came of the last action.
    pub fn next(state: FetchState, event: FetchEvent, card_id: &str) -> (r: Self)
        requires
            state.valid(),
            state.expects(event@),
        ensures
            r@ == fetch_step(state, event@, card_id@),
            r.state.valid(),
    {
        let empty = no_reports();
        match event {
            FetchEvent::Failed { cause } => {
                let attempt: u32 = match state {
                    FetchState::Requesting { attempt } => attempt,
                    _ => ATTEMPTS,
                };
                let reports = one_report(attempt_failed(attempt, card_id, cause.as_str()));
                if attempt < ATTEMPTS {
                    FetchStep {
                        state: FetchState::Requesting { attempt: attempt + 1 },
                        action: FetchAction::Get,
                        reports,
                    }
                } else {
                    let mut text = "Request failed: ".to_owned();
                    text.append(cause.as_str());
                    FetchStep::finish(Err(text), reports)
                }
            },
            FetchEvent::Responded { status } => {
                if status_is_success(status) {
                    FetchStep {
                        state: FetchState::Reading,
                        action: FetchAction::Read,
                        reports: empty,
                    }
                } else {
                    FetchStep::finish(Err(bad_status(status_text(status).as_str())), empty)
                }
            },
            FetchEvent::Parsed { card } => FetchStep::finish(Ok(card), empty),
            FetchEvent::Unparsed { cause } => {
                let mut text = "Failed to parse card JSON: ".to_owned();
                text.append(cause.as_str());
                FetchStep::finish(Err(text), empty)
            },
        }
    }
}

} // verus!
