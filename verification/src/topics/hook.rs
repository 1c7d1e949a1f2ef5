//! What is done about a request of Trello's webhook.

use vstd::prelude::*;
use vstd::string::*;

use crate::message::{no_reports, one_report, report_views};
use crate::message::{Message, MessageView, Report, ReportView};
use crate::outside::{lossy_text, utf8_lossy};
use crate::text::{concat_four, str_eq, texts};
use crate::topics::announcement::{card_message, card_reports, topic_message, topic_reports};
use crate::topics::card::TrelloCard;
use crate::topics::urls::{extract_urls, urls_of};

verus! {

#[derive(Debug)]
pub struct TrelloWebhookEvent {
    pub action: TrelloAction,
}

#[derive(Debug)]
pub struct TrelloAction {
    pub action_type: String,
    pub data: TrelloActionData,
}

#[derive(Debug)]
pub struct TrelloActionData {
    pub card: TrelloCardRef,
    pub list_after: Option<TrelloList>,
}

/// Minimal card info that arrives in the webhook payload (no desc).
#[derive(Debug)]
pub struct TrelloCardRef {
    pub id: String,
    pub name: String,
}

#[derive(Debug)]
pub struct TrelloList {
    pub id: String,
}

/// What an event says: the kind of action, the card, and the list that the card
/// was moved to, if it was.
pub struct EventView {
    pub action_type: Seq<char>,
    pub card_id: Seq<char>,
    pub card_name: Seq<char>,
    pub list_after: Option<Seq<char>>,
}

impl View for TrelloWebhookEvent {
    type V = EventView;

    open spec fn view(&self) -> EventView {
        EventView {
            action_type: self.action.action_type@,
            card_id: self.action.data.card.id@,
            card_name: self.action.data.card.name@,
            list_after: match self.action.data.list_after {
                Some(list) => Some(list.id@),
                None => None,
            },
        }
    }
}

/// How a request is answered.
#[derive(Clone, Copy, Debug, PartialEq, Eq, Structural)]
pub enum Status {
    Success,
    MethodNotAllowed,
}

impl Status {
    /// The number of the status.
    pub open spec fn number(self) -> u16 {
        match self {
            Status::Success => 200,
            Status::MethodNotAllowed => 405,
        }
    }

    /// The number of the status.
    pub fn code(self) -> (r: u16)
        ensures
            r == self.number(),
    {
        match self {
            Status::Success => 200,
            Status::MethodNotAllowed => 405,
        }
    }
}

/// How far the handling of a request has come.
#[derive(Debug)]
pub enum HookState {
    /// The request has just arrived.
    Arrived,
    /// Its body is being read as an event.
    Reading,
    /// The card is being fetched.
    Fetching { card_id: String, title: String },
    /// The message is being sent.
    Sending,
    /// The answer is known.
    Answered,
}

/// What came of the last action.
#[derive(Debug)]
pub enum HookEvent {
    /// The request has the given method.
    Request { method: String },
    /// The body is an event.
    Parsed { event: TrelloWebhookEvent },
    /// The body is no event.
    Unparsed { cause: String, body: Vec<u8> },
    /// The card was fetched.
    Fetched { card: TrelloCard },
    /// The card could not be fetched.
    NotFetched { cause: String },
    /// The message was handed to all the recipients.
    Sent,
}

/// What is to be done next.
#[derive(Debug)]
pub enum HookAction {
    /// Read the body as an event.
    ReadEvent,
    /// Fetch the card.
    FetchCard { card_id: String },
    /// Send the message to all the recipients.
    Send { message: Message },
    /// Answer the request.
    Answer { status: Status },
}

/// The next state, what is to be done, and what the operator is told.
#[derive(Debug)]
pub struct HookStep {
    pub state: HookState,
    pub action: HookAction,
    pub reports: Vec<Report>,
}

/// The texts of a `HookState`.
pub enum HookStateView {
    Arrived,
    Reading,
    Fetching { card_id: Seq<char>, title: Seq<char> },
    Sending,
    Answered,
}

/// The texts of a `HookEvent`; a card is its description.
pub enum HookEventView {
    Request { method: Seq<char> },
    Parsed { event: EventView },
    Unparsed { cause: Seq<char>, body: Seq<u8> },
    Fetched { desc: Seq<char> },
    NotFetched { cause: Seq<char> },
    Sent,
}

/// The texts of a `HookAction`.
pub enum HookActionView {
    ReadEvent,
    FetchCard { card_id: Seq<char> },
    Send { message: MessageView },
    Answer { status: Status },
}

/// The texts of a `HookStep`.
pub struct HookStepView {
    pub state: HookStateView,
    pub action: HookActionView,
    pub reports: Seq<ReportView>,
}

impl View for HookState {
    type V = HookStateView;

    open spec fn view(&self) -> HookStateView {
        match self {
            HookState::Arrived => HookStateView::Arrived,
            HookState::Reading => HookStateView::Reading,
            HookState::Fetching { card_id, title } => HookStateView::Fetching {
                card_id: card_id@,
                title: title@,
            },
            HookState::Sending => HookStateView::Sending,
            HookState::Answered => HookStateView::Answered,
        }
    }
}

impl View for HookEvent {
    type V = HookEventView;

    open spec fn view(&self) -> HookEventView {
        match self {
            HookEvent::Request { method } => HookEventView::Request { method: method@ },
            HookEvent::Parsed { event } => HookEventView::Parsed { event: event@ },
            HookEvent::Unparsed { cause, body } => HookEventView::Unparsed {
                cause: cause@,
                body: body@,
            },
            HookEvent::Fetched { card } => HookEventView::Fetched { desc: card.desc@ },
            HookEvent::NotFetched { cause } => HookEventView::NotFetched { cause: cause@ },
            HookEvent::Sent => HookEventView::Sent,
        }
    }
}

impl View for HookAction {
    type V = HookActionView;

    open spec fn view(&self) -> HookActionView {
        match self {
            HookAction::ReadEvent => HookActionView::ReadEvent,
            HookAction::FetchCard { card_id } => HookActionView::FetchCard { card_id: card_id@ },
            HookAction::Send { message } => HookActionView::Send { message: message@ },
            HookAction::Answer { status } => HookActionView::Answer { status: *status },
        }
    }
}

impl View for HookStep {
    type V = HookStepView;

    open spec fn view(&self) -> HookStepView {
        HookStepView {
            state: self.state@,
            action: self.action@,
            reports: report_views(self.reports@),
        }
    }
}

impl HookStateView {
    /// `event` is one that can follow in this state.
    pub open spec fn expects(self, event: HookEventView) -> bool {
        match self {
            HookStateView::Arrived => event is Request,
            HookStateView::Reading => event is Parsed || event is Unparsed,
            HookStateView::Fetching { .. } => event is Fetched || event is NotFetched,
            HookStateView::Sending => event is Sent,
            HookStateView::Answered => false,
        }
    }
}

/// The event tells that a card was moved to the list with the given ID.
pub open spec fn moved_to(event: EventView, list_id: Seq<char>) -> bool {
    event.action_type == "updateCard"@ && event.list_after == Some(list_id)
}

/// The step that answers the request.
pub open spec fn answering(status: Status, reports: Seq<ReportView>) -> HookStepView {
    HookStepView {
        state: HookStateView::Answered,
        action: HookActionView::Answer { status },
        reports,
    }
}

/// What follows from the method of a request: GET and HEAD, by which Trello tests
/// the address, are answered at once, POST brings an event, others are refused.
pub open spec fn request_step(method: Seq<char>) -> HookStepView {
    if method == "GET"@ || method == "HEAD"@ {
        answering(Status::Success, Seq::empty())
    } else if method != "POST"@ {
        answering(Status::MethodNotAllowed, Seq::empty())
    } else {
        HookStepView {
            state: HookStateView::Reading,
            action: HookActionView::ReadEvent,
            reports: Seq::empty(),
        }
    }
}

/// What the operator is told of a body that is no event, given the body as text.
pub open spec fn unparsed_reports(cause: Seq<char>, body: Seq<char>) -> Seq<ReportView> {
    seq![
        ReportView::Error("Failed to parse webhook JSON: "@ + cause),
        ReportView::Error("Raw body: "@ + body),
    ]
}

/// What follows from `event`: a card that was moved to the list is fetched, and the
/// addresses in its description are announced under its title.
pub open spec fn hook_step(
    state: HookStateView,
    event: HookEventView,
    list_id: Seq<char>,
) -> HookStepView {
    match event {
        HookEventView::Request { method } => request_step(method),
        HookEventView::Parsed { event } => if moved_to(event, list_id) {
            HookStepView {
                state: HookStateView::Fetching { card_id: event.card_id, title: event.card_name },
                action: HookActionView::FetchCard { card_id: event.card_id },
                reports: Seq::empty(),
            }
        } else {
            answering(Status::Success, Seq::empty())
        },
        HookEventView::Unparsed { cause, body } => answering(
            Status::Success,
            unparsed_reports(cause, lossy_text(body)),
        ),
        HookEventView::Fetched { desc } => {
            let title = state->title;
            HookStepView {
                state: HookStateView::Sending,
                action: HookActionView::Send { message: card_message(title, urls_of(desc)) },
                reports: card_reports(title, urls_of(desc)),
            }
        },
        HookEventView::NotFetched { cause } => answering(
            Status::Success,
            seq![
                ReportView::Error(
                    "Failed to fetch card '"@ + state->card_id + "': "@ + cause,
                ),
            ],
        ),
        HookEventView::Sent => answering(Status::Success, Seq::empty()),
    }
}

/// Each of the events is one that can follow, when they happen one after the other.
pub open spec fn can_happen(
    state: HookStateView,
    events: Seq<HookEventView>,
    list_id: Seq<char>,
) -> bool
    decreases events.len(),
{
    events.len() > 0 ==> state.expects(events[0]) && can_happen(
        hook_step(state, events[0], list_id).state,
        events.drop_first(),
        list_id,
    )
}

/// The actions that follow from the events.
pub open spec fn actions(
    state: HookStateView,
    events: Seq<HookEventView>,
    list_id: Seq<char>,
) -> Seq<HookActionView>
    decreases events.len(),
{
    if events.len() == 0 {
        Seq::empty()
    } else {
        let step = hook_step(state, events[0], list_id);
        seq![step.action] + actions(step.state, events.drop_first(), list_id)
    }
}

/// The state in which the events leave the handling of a request.
pub open spec fn state_after(
    state: HookStateView,
    events: Seq<HookEventView>,
    list_id: Seq<char>,
) -> HookStateView
    decreases events.len(),
{
    if events.len() == 0 {
        state
    } else {
        state_after(hook_step(state, events[0], list_id).state, events.drop_first(), list_id)
    }
}

/// How many events can follow in a state, at most.
pub open spec fn events_left(state: HookStateView) -> int {
    match state {
        HookStateView::Arrived => 4,
        HookStateView::Reading => 3,
        HookStateView::Fetching { .. } => 2,
        HookStateView::Sending => 1,
        HookStateView::Answered => 0,
    }
}

/// No event can follow in a state.
pub open spec fn is_over(state: HookStateView) -> bool {
    forall|event: HookEventView| !#[trigger] state.expects(event)
}

proof fn lemma_over_when_answered(state: HookStateView)
    ensures
        is_over(state) <==> state is Answered,
{
    let none = Seq::<char>::empty();
    match state {
        HookStateView::Arrived => assert(state.expects(HookEventView::Request { method: none })),
        HookStateView::Reading => assert(state.expects(
            HookEventView::Unparsed { cause: none, body: Seq::empty() },
        )),
        HookStateView::Fetching { .. } => assert(state.expects(
            HookEventView::NotFetched { cause: none },
        )),
        HookStateView::Sending => assert(state.expects(HookEventView::Sent)),
        HookStateView::Answered => {},
    }
}

proof fn lemma_hook_ends(state: HookStateView, events: Seq<HookEventView>, list_id: Seq<char>)
    requires
        can_happen(state, events, list_id),
    ensures
        events.len() <= events_left(state),
        actions(state, events, list_id).len() == events.len(),
        events.len() > 0 ==> (is_over(state_after(state, events, list_id)) <==> actions(
            state,
            events,
            list_id,
        ).last() is Answer),
    decreases events.len(),
{
    if events.len() > 0 {
        let step = hook_step(state, events[0], list_id);
        let rest = events.drop_first();
        lemma_over_when_answered(step.state);
        lemma_hook_ends(step.state, rest, list_id);
        if rest.len() > 0 {
            assert(actions(state, events, list_id).last() == actions(
                step.state,
                rest,
                list_id,
            ).last());
        } else {
            assert(actions(state, events, list_id) =~= seq![step.action]);
        }
    }
}

/// Every request is answered: no more than four events follow each other, and there
/// is one that can follow until the last action is an answer, and none then.
pub proof fn law_every_request_answered(events: Seq<HookEventView>, list_id: Seq<char>)
    requires
        can_happen(HookStateView::Arrived, events, list_id),
    ensures
        events.len() <= 4,
        is_over(state_after(HookStateView::Arrived, events, list_id)) <==> events.len() > 0
            && actions(HookStateView::Arrived, events, list_id).last() is Answer,
{
    lemma_over_when_answered(HookStateView::Arrived);
    lemma_hook_ends(HookStateView::Arrived, events, list_id);
}

/// A request with another method than GET, HEAD and POST is refused, and no other
/// request is; nothing follows a refusal.
pub proof fn law_only_other_methods_refused(events: Seq<HookEventView>, list_id: Seq<char>, k: int)
    requires
        can_happen(HookStateView::Arrived, events, list_id),
        0 <= k < events.len(),
    ensures
        (actions(HookStateView::Arrived, events, list_id)[k] == HookActionView::Answer {
            status: Status::MethodNotAllowed,
        }) <==> k == 0 && events[0]->method != "GET"@ && events[0]->method != "HEAD"@
            && events[0]->method != "POST"@,
        actions(HookStateView::Arrived, events, list_id)[k] is Answer ==> k == events.len() - 1,
{
    lemma_hook_run(HookStateView::Arrived, events, list_id, k);
}

proof fn lemma_hook_run(
    state: HookStateView,
    events: Seq<HookEventView>,
    list_id: Seq<char>,
    k: int,
)
    requires
        can_happen(state, events, list_id),
        0 <= k < events.len(),
    ensures
        actions(state, events, list_id).len() == events.len(),
        actions(state, events, list_id)[k] is Answer ==> k == events.len() - 1,
        (actions(state, events, list_id)[k] == HookActionView::Answer {
            status: Status::MethodNotAllowed,
        }) <==> k == 0 && state is Arrived && request_step(events[0]->method) == answering(
            Status::MethodNotAllowed,
            Seq::empty(),
        ),
        actions(state, events, list_id)[k] is FetchCard <==> (events[k] matches HookEventView::Parsed { event }
            && moved_to(event, list_id)),
        actions(state, events, list_id)[k] is Send <==> events[k] is Fetched,
    decreases events.len(),
{
    let step = hook_step(state, events[0], list_id);
    let rest = events.drop_first();
    if k > 0 {
        lemma_hook_run(step.state, rest, list_id, k - 1);
        assert(actions(state, events, list_id)[k] == actions(step.state, rest, list_id)[k - 1]);
        assert(events[k] == rest[k - 1]);
    } else {
        if rest.len() > 0 {
            lemma_hook_run(step.state, rest, list_id, 0);
            assert(step.state.expects(rest[0]));
        } else {
            assert(actions(step.state, rest, list_id) =~= Seq::empty());
        }
        assert(actions(state, events, list_id)[0] == step.action);
    }
}

/// A card is fetched exactly when an event tells that it was moved to the list, and
/// a message is sent exactly when a card was fetched.
pub proof fn law_only_moves_announced(events: Seq<HookEventView>, list_id: Seq<char>, k: int)
    requires
        can_happen(HookStateView::Arrived, events, list_id),
        0 <= k < events.len(),
    ensures
        actions(HookStateView::Arrived, events, list_id)[k] is FetchCard <==> (
        events[k] matches HookEventView::Parsed { event } && moved_to(event, list_id)),
        actions(HookStateView::Arrived, events, list_id)[k] is Send <==> events[k] is Fetched,
{
    lemma_hook_run(HookStateView::Arrived, events, list_id, k);
}

/// A request that asks for the address with GET or HEAD is answered with success at
/// once, a POST is read, and any other request is refused; the operator is told of
/// none of them.
pub proof fn law_requests(state: HookStateView, method: Seq<char>, list_id: Seq<char>)
    ensures
        ({
            let step = hook_step(state, HookEventView::Request { method }, list_id);
            &&& step.reports.len() == 0
            &&& method == "GET"@ || method == "HEAD"@ ==> step.state is Answered && step.action
                == HookActionView::Answer { status: Status::Success }
            &&& method == "POST"@ ==> step.state is Reading && step.action is ReadEvent
            &&& method != "GET"@ && method != "HEAD"@ && method != "POST"@ ==> step.state is Answered
                && step.action == HookActionView::Answer { status: Status::MethodNotAllowed }
        }),
{
    reveal_strlit("GET");
    reveal_strlit("HEAD");
    reveal_strlit("POST");
    assert("GET"@.len() == 3 && "HEAD"@.len() == 4 && "POST"@.len() == 4);
    assert("HEAD"@[0] != "POST"@[0]);
}

/// A card is fetched exactly if the event is an update of it that moved it to the
/// list; it is the event's card, and its title is kept. Any other event is answered
/// with success, and nothing more is done about it.
pub proof fn law_moves_are_followed(state: HookStateView, event: EventView, list_id: Seq<char>)
    ensures
        ({
            let step = hook_step(state, HookEventView::Parsed { event }, list_id);
            let moved = event.action_type == "updateCard"@ && event.list_after == Some(list_id);
            &&& step.reports.len() == 0
            &&& moved ==> step.action == (HookActionView::FetchCard { card_id: event.card_id })
                && step.state == (HookStateView::Fetching {
                card_id: event.card_id,
                title: event.card_name,
            })
            &&& !moved ==> step.state is Answered && step.action == HookActionView::Answer {
                status: Status::Success,
            }
        }),
{
}

/// A body that is no event is answered with success; the operator is told why it is
/// none, and the body.
pub proof fn law_bad_bodies_are_told(
    state: HookStateView,
    cause: Seq<char>,
    body: Seq<u8>,
    list_id: Seq<char>,
)
    ensures
        ({
            let step = hook_step(state, HookEventView::Unparsed { cause, body }, list_id);
            &&& step.state is Answered
            &&& step.action == HookActionView::Answer { status: Status::Success }
            &&& step.reports.len() == 2
            &&& step.reports[0] == ReportView::Error("Failed to parse webhook JSON: "@ + cause)
            &&& step.reports[1] == ReportView::Error("Raw body: "@ + lossy_text(body))
        }),
{
}

/// Of a card that was fetched the title that the event gave and all the addresses of
/// the description are shown and sent; then the request is answered with success. So
/// it is when the card cannot be fetched, of which the operator is told.
pub proof fn law_fetched_cards_are_announced(
    card_id: Seq<char>,
    title: Seq<char>,
    desc: Seq<char>,
    cause: Seq<char>,
    state: HookStateView,
    list_id: Seq<char>,
)
    ensures
        ({
            let fetching = HookStateView::Fetching { card_id, title };
            let step = hook_step(fetching, HookEventView::Fetched { desc }, list_id);
            &&& step.state is Sending
            &&& step.action == HookActionView::Send {
                message: card_message(title, urls_of(desc)),
            }
            &&& step.reports == card_reports(title, urls_of(desc))
        }),
        ({
            let fetching = HookStateView::Fetching { card_id, title };
            let step = hook_step(fetching, HookEventView::NotFetched { cause }, list_id);
            &&& step.state is Answered
            &&& step.action == HookActionView::Answer { status: Status::Success }
            &&& step.reports.len() == 1
            &&& step.reports[0] == ReportView::Error(
                "Failed to fetch card '"@ + card_id + "': "@ + cause,
            )
        }),
        ({
            let step = hook_step(state, HookEventView::Sent, list_id);
            &&& step.state is Answered
            &&& step.action == HookActionView::Answer { status: Status::Success }
            &&& step.reports.len() == 0
        }),
{
}

/// A success is 200, and a refusal 405.
pub proof fn law_status_numbers()
    ensures
        Status::Success.number() == 200,
        Status::MethodNotAllowed.number() == 405,
{
}

/// A request arrives with any method; its body is an event or is none; the card is
/// fetched or is not; the message is sent; nothing follows the answer.
pub proof fn law_hook_events(
    method: Seq<char>,
    event: EventView,
    cause: Seq<char>,
    body: Seq<u8>,
    card_id: Seq<char>,
    title: Seq<char>,
    desc: Seq<char>,
    any: HookEventView,
)
    ensures
        HookStateView::Arrived.expects(HookEventView::Request { method }),
        HookStateView::Reading.expects(HookEventView::Parsed { event }),
        HookStateView::Reading.expects(HookEventView::Unparsed { cause, body }),
        (HookStateView::Fetching { card_id, title }).expects(HookEventView::Fetched { desc }),
        (HookStateView::Fetching { card_id, title }).expects(HookEventView::NotFetched { cause }),
        HookStateView::Sending.expects(HookEventView::Sent),
        !HookStateView::Answered.expects(any),
{
}

/// A webhook event is seen by its kind, its card's identifier and name, and the list
/// that the card was moved to.
pub proof fn law_event_view(event: TrelloWebhookEvent)
    ensures
        event@.action_type == event.action.action_type@,
        event@.card_id == event.action.data.card.id@,
        event@.card_name == event.action.data.card.name@,
        match event.action.data.list_after {
            Some(list) => event@.list_after == Some(list.id@),
            None => event@.list_after is None,
        },
{
}

/// States, events, actions and steps are seen by their texts.
pub proof fn law_hook_views(
    a: String,
    b: String,
    event: TrelloWebhookEvent,
    body: Vec<u8>,
    card: TrelloCard,
    message: Message,
    status: Status,
    step: HookStep,
)
    ensures
        HookState::Arrived@ == HookStateView::Arrived,
        HookState::Reading@ == HookStateView::Reading,
        (HookState::Fetching { card_id: a, title: b })@ == (HookStateView::Fetching {
            card_id: a@,
            title: b@,
        }),
        HookState::Sending@ == HookStateView::Sending,
        HookState::Answered@ == HookStateView::Answered,
        (HookEvent::Request { method: a })@ == (HookEventView::Request { method: a@ }),
        (HookEvent::Parsed { event })@ == (HookEventView::Parsed { event: event@ }),
        (HookEvent::Unparsed { cause: a, body })@ == (HookEventView::Unparsed {
            cause: a@,
            body: body@,
        }),
        (HookEvent::Fetched { card })@ == (HookEventView::Fetched { desc: card.desc@ }),
        (HookEvent::NotFetched { cause: a })@ == (HookEventView::NotFetched { cause: a@ }),
        HookEvent::Sent@ == HookEventView::Sent,
        HookAction::ReadEvent@ == HookActionView::ReadEvent,
        (HookAction::FetchCard { card_id: a })@ == (HookActionView::FetchCard { card_id: a@ }),
        (HookAction::Send { message })@ == (HookActionView::Send { message: message@ }),
        (HookAction::Answer { status })@ == (HookActionView::Answer { status }),
        step@.state == step.state@,
        step@.action == step.action@,
        step@.reports == report_views(step.reports@),
{
}

impl HookStep {
    fn answer(status: Status, reports: Vec<Report>) -> (r: Self)
        ensures
            r@ == answering(status, report_views(reports@)),
    {
        HookStep { state: HookState::Answered, action: HookAction::Answer { status }, reports }
    }

    /// What follows from the method of a request.
    fn on_request(method: &str) -> (r: Self)
        ensures
            r@ == request_step(method@),
    {
        let empty = no_reports();
        if str_eq(method, "GET") || str_eq(method, "HEAD") {
            HookStep::answer(Status::Success, empty)
        } else if !str_eq(method, "POST") {
            HookStep::answer(Status::MethodNotAllowed, empty)
        } else {
            HookStep { state: HookState::Reading, action: HookAction::ReadEvent, reports: empty }
        }
    }

    /// The step that follows when `event` came of the last action.
    pub fn next(state: HookState, event: HookEvent, in_discussion_list_id: &str) -> (r: Self)
        requires
            state@.expects(event@),
        ensures
            r@ == hook_step(state@, event@, in_discussion_list_id@),
    {
        let empty = no_reports();
        match event {
            HookEvent::Request { method } => HookStep::on_request(method.as_str()),
            HookEvent::Parsed { event } => {
                if moved_to_list(&event, in_discussion_list_id) {
                    let card = event.action.data.card;
                    HookStep {
                        state: HookState::Fetching { card_id: card.id.clone(), title: card.name },
                        action: HookAction::FetchCard { card_id: card.id },
                        reports: empty,
                    }
                } else {
                    HookStep::answer(Status::Success, empty)
                }
            },
            HookEvent::Unparsed { cause, body } => {
                let text = utf8_lossy(body.as_slice());
                HookStep::answer(Status::Success, not_an_event(cause.as_str(), text.as_str()))
            },
            HookEvent::Fetched { card } => {
                let title = match state {
                    HookState::Fetching { title, .. } => title,
                    _ => String::new(),
                };
                let urls = extract_urls(card.desc.as_str());
                HookStep {
                    state: HookState::Sending,
                    action: HookAction::Send { message: topic_message(title.as_str(), &urls) },
                    reports: topic_reports(title.as_str(), &urls),
                }
            },
            HookEvent::NotFetched { cause } => {
                let card_id = match state {
                    HookState::Fetching { card_id, .. } => card_id,
                    _ => String::new(),
                };
                let text = concat_four(
                    "Failed to fetch card '",
                    card_id.as_str(),
                    "': ",
                    cause.as_str(),
                );
                HookStep::answer(Status::Success, one_report(Report::Error(text)))
            },
            HookEvent::Sent => HookStep::answer(Status::Success, empty),
        }
    }
}

/// Whether the event tells that a card was moved to the list with the given ID.
pub fn moved_to_list(event: &TrelloWebhookEvent, list_id: &str) -> (r: bool)
    ensures
        r == moved_to(event@, list_id@),
{
    if !str_eq(event.action.action_type.as_str(), "updateCard") {
        return false;
    }
    match &event.action.data.list_after {
        Some(list) => str_eq(list.id.as_str(), list_id),
        None => false,
    }
}

/// What the operator is told of a body that is no event, given the body as text.
pub fn not_an_event(cause: &str, body: &str) -> (r: Vec<Report>)
    ensures
        report_views(r@) == unparsed_reports(cause@, body@),
{
    let mut first = "Failed to parse webhook JSON: ".to_owned();
    first.append(cause);
    let mut second = "Raw body: ".to_owned();
    second.append(body);
    let mut r: Vec<Report> = Vec::new();
    r.push(Report::Error(first));
    r.push(Report::Error(second));
    assert(report_views(r@) =~= unparsed_reports(cause@, body@));
    r
}

} // verus!
