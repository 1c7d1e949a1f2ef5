//! Sending a message to all the recipients: they have their turns one after the
//! other, each in a room of its own, and one that cannot be reached does not keep
//! the others from the message.

use vstd::prelude::*;
use vstd::string::*;

use crate::delivery::{delivery_step, first_step, gives_room, suits};
use crate::delivery::{DeliveryAction, DeliveryActionView, DeliveryEvent, DeliveryEventView};
use crate::delivery::{DeliveryState, DeliveryStateView, DeliveryStep, DeliveryStepView};
use crate::message::{no_reports, one_report, report_views, Report, ReportView};
use crate::recipient::{recipient_views, Recipient, RecipientView};
use crate::text::opt_text;

verus! {

/// How far the sending has come.
#[derive(Debug)]
pub enum RoomsState {
    /// The client learns of the rooms that it has already joined.
    Syncing,
    /// It is the turn of the recipient with the given number.
    Delivering { index: usize, delivery: DeliveryState },
    /// All the recipients have had their turn.
    Done,
}

/// What came of the last action.
#[derive(Debug)]
pub enum RoomsEvent {
    /// The client knows the rooms; the error, if not.
    Synced { error: Option<String> },
    /// The event is one in the turn of a recipient.
    Delivery { event: DeliveryEvent },
}

/// What is to be done next.
#[derive(Debug)]
pub enum RoomsAction {
    /// Learn of the rooms that were already joined.
    Sync,
    /// The action is one in the turn of a recipient.
    Deliver { action: DeliveryAction },
    /// Nothing is left to be done.
    Finish,
}

/// The next state, what is to be done, and what the operator is told.
#[derive(Debug)]
pub struct RoomsStep {
    pub state: RoomsState,
    pub action: RoomsAction,
    pub reports: Vec<Report>,
}

/// The texts of a `RoomsState`.
pub enum RoomsStateView {
    Syncing,
    Delivering { index: int, delivery: DeliveryStateView },
    Done,
}

/// The texts of a `RoomsEvent`.
pub enum RoomsEventView {
    Synced { error: Option<Seq<char>> },
    Delivery { event: DeliveryEventView },
}

/// The texts of a `RoomsAction`.
pub enum RoomsActionView {
    Sync,
    Deliver { action: DeliveryActionView },
    Finish,
}

/// The texts of a `RoomsStep`.
pub struct RoomsStepView {
    pub state: RoomsStateView,
    pub action: RoomsActionView,
    pub reports: Seq<ReportView>,
}

impl View for RoomsState {
    type V = RoomsStateView;

    open spec fn view(&self) -> RoomsStateView {
        match self {
            RoomsState::Syncing => RoomsStateView::Syncing,
            RoomsState::Delivering { index, delivery } => RoomsStateView::Delivering {
                index: *index as int,
                delivery: delivery@,
            },
            RoomsState::Done => RoomsStateView::Done,
        }
    }
}

impl View for RoomsEvent {
    type V = RoomsEventView;

    open spec fn view(&self) -> RoomsEventView {
        match self {
            RoomsEvent::Synced { error } => RoomsEventView::Synced { error: opt_text(*error) },
            RoomsEvent::Delivery { event } => RoomsEventView::Delivery { event: event@ },
        }
    }
}

impl View for RoomsAction {
    type V = RoomsActionView;

    open spec fn view(&self) -> RoomsActionView {
        match self {
            RoomsAction::Sync => RoomsActionView::Sync,
            RoomsAction::Deliver { action } => RoomsActionView::Deliver { action: action@ },
            RoomsAction::Finish => RoomsActionView::Finish,
        }
    }
}

impl View for RoomsStep {
    type V = RoomsStepView;

    open spec fn view(&self) -> RoomsStepView {
        RoomsStepView {
            state: self.state@,
            action: self.action@,
            reports: report_views(self.reports@),
        }
    }
}

impl RoomsStateView {
    /// The recipient whose turn it is is one of the given ones, and its turn has come
    /// to a state that suits it.
    pub open spec fn valid(self, recipients: Seq<RecipientView>) -> bool {
        self matches RoomsStateView::Delivering { index, delivery } ==> 0 <= index
            < recipients.len() && suits(delivery, recipients[index])
    }

    /// `event` is one that can follow in this state.
    pub open spec fn expects(self, event: RoomsEventView, recipients: Seq<RecipientView>) -> bool {
        match self {
            RoomsStateView::Syncing => event is Synced,
            RoomsStateView::Delivering { index, delivery } => event matches RoomsEventView::Delivery {
                event,
            } && delivery.expects(event, recipients[index]),
            RoomsStateView::Done => false,
        }
    }

    /// How many of the `n` recipients have been given a turn.
    pub open spec fn begun(self, n: nat) -> int {
        match self {
            RoomsStateView::Syncing => 0,
            RoomsStateView::Delivering { index, .. } => index + 1,
            RoomsStateView::Done => n as int,
        }
    }
}

/// The turn of the recipient with number `index`, or the end if there is none.
pub open spec fn turn_of(
    index: int,
    recipients: Seq<RecipientView>,
    reports: Seq<ReportView>,
) -> RoomsStepView {
    if index < recipients.len() {
        let begin = first_step(recipients[index]);
        RoomsStepView {
            state: RoomsStateView::Delivering { index, delivery: begin.state },
            action: RoomsActionView::Deliver { action: begin.action },
            reports,
        }
    } else {
        RoomsStepView { state: RoomsStateView::Done, action: RoomsActionView::Finish, reports }
    }
}

/// What follows from `step` in the turn of the recipient with number `index`: the
/// turn of the next one where the step ends this turn.
pub open spec fn within_turn(
    index: int,
    step: DeliveryStepView,
    recipients: Seq<RecipientView>,
) -> RoomsStepView {
    if step.action is Finish {
        turn_of(index + 1, recipients, step.reports)
    } else {
        RoomsStepView {
            state: RoomsStateView::Delivering { index, delivery: step.state },
            action: RoomsActionView::Deliver { action: step.action },
            reports: step.reports,
        }
    }
}

/// What follows from `event`.
pub open spec fn rooms_step(
    state: RoomsStateView,
    event: RoomsEventView,
    recipients: Seq<RecipientView>,
) -> RoomsStepView {
    match event {
        RoomsEventView::Synced { error } => turn_of(
            0,
            recipients,
            match error {
                Some(e) => seq![ReportView::Error("Matrix sync failed: "@ + e)],
                None => Seq::empty(),
            },
        ),
        RoomsEventView::Delivery { event } => {
            let index = state->index;
            within_turn(
                index,
                delivery_step(state->delivery, event, recipients[index], None),
                recipients,
            )
        },
    }
}

/// Each of the events is one that can follow, when they happen one after the other.
pub open spec fn can_happen(
    state: RoomsStateView,
    events: Seq<RoomsEventView>,
    recipients: Seq<RecipientView>,
) -> bool
    decreases events.len(),
{
    events.len() > 0 ==> state.expects(events[0], recipients) && can_happen(
        rooms_step(state, events[0], recipients).state,
        events.drop_first(),
        recipients,
    )
}

/// The state in which the events leave the sending.
pub open spec fn state_after(
    state: RoomsStateView,
    events: Seq<RoomsEventView>,
    recipients: Seq<RecipientView>,
) -> RoomsStateView
    decreases events.len(),
{
    if events.len() == 0 {
        state
    } else {
        state_after(
            rooms_step(state, events[0], recipients).state,
            events.drop_first(),
            recipients,
        )
    }
}

/// The recipient for whom the action asks for a room, if it does: a new one for a
/// user, the one with the alias otherwise.
pub open spec fn asks_for(action: RoomsActionView) -> Option<RecipientView> {
    match action {
        RoomsActionView::Deliver { action: DeliveryActionView::CreateRoom { user_id } } => Some(
            RecipientView::User(user_id),
        ),
        RoomsActionView::Deliver { action: DeliveryActionView::JoinRoom { alias } } => Some(
            RecipientView::RoomAlias(alias),
        ),
        _ => None,
    }
}

/// The recipients for whom a room is asked for, in order.
pub open spec fn rooms_asked(
    state: RoomsStateView,
    events: Seq<RoomsEventView>,
    recipients: Seq<RecipientView>,
) -> Seq<RecipientView>
    decreases events.len(),
{
    if events.len() == 0 {
        Seq::empty()
    } else {
        let step = rooms_step(state, events[0], recipients);
        let rest = rooms_asked(step.state, events.drop_first(), recipients);
        match asks_for(step.action) {
            Some(recipient) => seq![recipient] + rest,
            None => rest,
        }
    }
}

proof fn lemma_rooms_asked(
    state: RoomsStateView,
    events: Seq<RoomsEventView>,
    recipients: Seq<RecipientView>,
)
    requires
        state.valid(recipients),
        can_happen(state, events, recipients),
    ensures
        state.begun(recipients.len()) <= state_after(state, events, recipients).begun(
            recipients.len(),
        ) <= recipients.len(),
        rooms_asked(state, events, recipients) == recipients.subrange(
            state.begun(recipients.len()),
            state_after(state, events, recipients).begun(recipients.len()),
        ),
    decreases events.len(),
{
    let n = recipients.len();
    if events.len() == 0 {
        assert(recipients.subrange(state.begun(n), state.begun(n)) =~= Seq::empty());
    } else {
        let step = rooms_step(state, events[0], recipients);
        let rest = events.drop_first();
        lemma_rooms_asked(step.state, rest, recipients);
        assert(rooms_asked(state, events, recipients) =~= recipients.subrange(
            state.begun(n),
            state_after(state, events, recipients).begun(n),
        ));
    }
}

/// Whatever fails, a room is asked for once for every recipient, user or room, in
/// the given order.
pub proof fn law_every_room_in_turn(events: Seq<RoomsEventView>, recipients: Seq<RecipientView>)
    requires
        can_happen(RoomsStateView::Syncing, events, recipients),
        state_after(RoomsStateView::Syncing, events, recipients) is Done,
    ensures
        rooms_asked(RoomsStateView::Syncing, events, recipients) == recipients,
{
    lemma_rooms_asked(RoomsStateView::Syncing, events, recipients);
    assert(recipients.subrange(0, recipients.len() as int) =~= recipients);
}

/// The message is sent to a recipient exactly when its room was joined, or was made
/// and is known.
pub proof fn law_sent_where_joined(
    state: RoomsStateView,
    event: RoomsEventView,
    recipients: Seq<RecipientView>,
)
    requires
        state.valid(recipients),
        state.expects(event, recipients),
    ensures
        ({
            let step = rooms_step(state, event, recipients);
            let sends = step.action == (RoomsActionView::Deliver {
                action: DeliveryActionView::Send,
            });
            &&& sends <==> (event matches RoomsEventView::Delivery { event } && gives_room(event))
            &&& sends ==> step.state is Delivering && step.state->index == state->index
        }),
{
}

/// No event can follow in a state.
pub open spec fn is_over(state: RoomsStateView, recipients: Seq<RecipientView>) -> bool {
    forall|event: RoomsEventView| !#[trigger] state.expects(event, recipients)
}

/// How many events can follow in a state, at most, with `n` recipients.
pub open spec fn events_left(state: RoomsStateView, n: nat) -> int {
    match state {
        RoomsStateView::Syncing => 1 + 3 * (n as int),
        RoomsStateView::Delivering { index, delivery } => crate::delivery::events_left(delivery)
            + 3 * (n - index - 1),
        RoomsStateView::Done => 0,
    }
}

/// A turn that is under way is not over.
pub open spec fn under_way(state: RoomsStateView) -> bool {
    state matches RoomsStateView::Delivering { delivery, .. } ==> !(delivery is Done)
}

proof fn lemma_over_when_done(state: RoomsStateView, recipients: Seq<RecipientView>)
    requires
        state.valid(recipients),
        under_way(state),
    ensures
        is_over(state, recipients) <==> state is Done,
{
    match state {
        RoomsStateView::Syncing => {
            assert(state.expects(RoomsEventView::Synced { error: None }, recipients));
        },
        RoomsStateView::Delivering { index, delivery } => {
            let recipient = recipients[index];
            crate::delivery::lemma_over_when_done(delivery, recipient);
            let event = choose|event: DeliveryEventView| #[trigger]
                delivery.expects(event, recipient);
            assert(state.expects(RoomsEventView::Delivery { event }, recipients));
        },
        RoomsStateView::Done => {},
    }
}

proof fn lemma_rooms_end(
    state: RoomsStateView,
    events: Seq<RoomsEventView>,
    recipients: Seq<RecipientView>,
)
    requires
        state.valid(recipients),
        under_way(state),
        can_happen(state, events, recipients),
    ensures
        events.len() <= events_left(state, recipients.len()),
        is_over(state_after(state, events, recipients), recipients) <==> state_after(
            state,
            events,
            recipients,
        ) is Done,
    decreases events.len(),
{
    if events.len() == 0 {
        lemma_over_when_done(state, recipients);
    } else {
        lemma_rooms_end(
            rooms_step(state, events[0], recipients).state,
            events.drop_first(),
            recipients,
        );
    }
}

/// The sending comes to an end: after the sync no more than three events follow for
/// each recipient, and there is one that can follow until all have had their turn.
pub proof fn law_rooms_end(events: Seq<RoomsEventView>, recipients: Seq<RecipientView>)
    requires
        can_happen(RoomsStateView::Syncing, events, recipients),
    ensures
        events.len() <= 1 + 3 * recipients.len(),
        is_over(state_after(RoomsStateView::Syncing, events, recipients), recipients)
            <==> state_after(RoomsStateView::Syncing, events, recipients) is Done,
{
    lemma_rooms_end(RoomsStateView::Syncing, events, recipients);
}

/// After the sync, whether it worked or not, the first recipient has its turn; the
/// operator is told if the sync failed. Where there is no recipient, that is the end.
pub proof fn law_turns_begin(
    state: RoomsStateView,
    cause: Seq<char>,
    recipients: Seq<RecipientView>,
)
    ensures
        ({
            let synced = rooms_step(state, RoomsEventView::Synced { error: None }, recipients);
            let failed = rooms_step(
                state,
                RoomsEventView::Synced { error: Some(cause) },
                recipients,
            );
            &&& synced.reports.len() == 0
            &&& failed.reports == seq![ReportView::Error("Matrix sync failed: "@ + cause)]
            &&& synced.state == failed.state
            &&& synced.action == failed.action
            &&& recipients.len() == 0 ==> synced.state is Done && synced.action is Finish
            &&& recipients.len() > 0 ==> synced.state == (RoomsStateView::Delivering {
                index: 0,
                delivery: first_step(recipients[0]).state,
            }) && synced.action == (RoomsActionView::Deliver {
                action: first_step(recipients[0]).action,
            })
        }),
{
}

/// What follows in a turn is what follows in sending to the recipient alone, with the
/// same words to the operator, as long as that is not at its end. At its end the next
/// recipient has its turn, or there is none and all is over.
pub proof fn law_turns_follow(
    index: int,
    delivery: DeliveryStateView,
    event: DeliveryEventView,
    recipients: Seq<RecipientView>,
)
    requires
        0 <= index < recipients.len(),
    ensures
        ({
            let alone = delivery_step(delivery, event, recipients[index], None);
            let step = rooms_step(
                RoomsStateView::Delivering { index, delivery },
                RoomsEventView::Delivery { event },
                recipients,
            );
            &&& step.reports == alone.reports
            &&& !(alone.action is Finish) ==> step.state == (RoomsStateView::Delivering {
                index,
                delivery: alone.state,
            }) && step.action == (RoomsActionView::Deliver { action: alone.action })
            &&& alone.action is Finish && index + 1 < recipients.len() ==> step.state == (
            RoomsStateView::Delivering {
                index: index + 1,
                delivery: first_step(recipients[index + 1]).state,
            }) && step.action == (RoomsActionView::Deliver {
                action: first_step(recipients[index + 1]).action,
            })
            &&& alone.action is Finish && index + 1 == recipients.len() ==> step.state is Done
                && step.action is Finish
        }),
{
}

/// The sync works or does not; in a turn what can follow is what can follow in
/// sending to the recipient alone; nothing follows the end.
pub proof fn law_rooms_events(
    error: Option<Seq<char>>,
    index: int,
    delivery: DeliveryStateView,
    event: DeliveryEventView,
    recipients: Seq<RecipientView>,
    any: RoomsEventView,
)
    ensures
        RoomsStateView::Syncing.valid(recipients),
        RoomsStateView::Done.valid(recipients),
        (RoomsStateView::Delivering { index, delivery }).valid(recipients) <==> 0 <= index
            < recipients.len() && suits(delivery, recipients[index]),
        RoomsStateView::Syncing.expects(RoomsEventView::Synced { error }, recipients),
        (RoomsStateView::Delivering { index, delivery }).expects(
            RoomsEventView::Delivery { event },
            recipients,
        ) <==> delivery.expects(event, recipients[index]),
        !RoomsStateView::Done.expects(any, recipients),
{
}

/// States, events, actions and steps are seen by their texts.
pub proof fn law_rooms_views(
    index: usize,
    delivery: DeliveryState,
    error: Option<String>,
    event: DeliveryEvent,
    action: DeliveryAction,
    step: RoomsStep,
)
    ensures
        RoomsState::Syncing@ == RoomsStateView::Syncing,
        (RoomsState::Delivering { index, delivery })@ == (RoomsStateView::Delivering {
            index: index as int,
            delivery: delivery@,
        }),
        RoomsState::Done@ == RoomsStateView::Done,
        (RoomsEvent::Synced { error })@ == (RoomsEventView::Synced { error: opt_text(error) }),
        (RoomsEvent::Delivery { event })@ == (RoomsEventView::Delivery { event: event@ }),
        RoomsAction::Sync@ == RoomsActionView::Sync,
        (RoomsAction::Deliver { action })@ == (RoomsActionView::Deliver { action: action@ }),
        RoomsAction::Finish@ == RoomsActionView::Finish,
        step@.state == step.state@,
        step@.action == step.action@,
        step@.reports == report_views(step.reports@),
{
}

impl RoomsStep {
    fn turn(index: usize, recipients: &Vec<Recipient>, reports: Vec<Report>) -> (r: Self)
        ensures
            r@ == turn_of(index as int, recipient_views(recipients@), report_views(reports@)),
    {
        if index < recipients.len() {
            let begin = DeliveryStep::first(&recipients[index]);
            RoomsStep {
                state: RoomsState::Delivering { index, delivery: begin.state },
                action: RoomsAction::Deliver { action: begin.action },
                reports,
            }
        } else {
            RoomsStep { state: RoomsState::Done, action: RoomsAction::Finish, reports }
        }
    }

    /// The first step: the client learns of the rooms that it has already joined.
    pub fn first() -> (r: Self)
        ensures
            r@ == (RoomsStepView {
                state: RoomsStateView::Syncing,
                action: RoomsActionView::Sync,
                reports: Seq::empty(),
            }),
    {
        RoomsStep { state: RoomsState::Syncing, action: RoomsAction::Sync, reports: no_reports() }
    }

    /// The step that follows when `event` came of the last action.
    pub fn next(state: RoomsState, event: RoomsEvent, recipients: &Vec<Recipient>) -> (r: Self)
        requires
            state@.valid(recipient_views(recipients@)),
            state@.expects(event@, recipient_views(recipients@)),
        ensures
            r@ == rooms_step(state@, event@, recipient_views(recipients@)),
            r.state@.valid(recipient_views(recipients@)),
    {
        assert(recipients.len() == recipients@.len());
        match event {
            RoomsEvent::Synced { error } => {
                let reports = match error {
                    Some(e) => {
                        let mut text = "Matrix sync failed: ".to_owned();
                        text.append(e.as_str());
                        one_report(Report::Error(text))
                    },
                    None => no_reports(),
                };
                RoomsStep::turn(0, recipients, reports)
            },
            RoomsEvent::Delivery { event } => {
                let (index, delivery): (usize, DeliveryState) = match state {
                    RoomsState::Delivering { index, delivery } => (index, delivery),
                    _ => (0, DeliveryState::Done),
                };
                let step = DeliveryStep::next(delivery, event, &recipients[index], None);
                match step.action {
                    DeliveryAction::Finish => RoomsStep::turn(index + 1, recipients, step.reports),
                    action => RoomsStep {
                        state: RoomsState::Delivering { index, delivery: step.state },
                        action: RoomsAction::Deliver { action },
                        reports: step.reports,
                    },
                }
            },
        }
    }
}

} // verus!
