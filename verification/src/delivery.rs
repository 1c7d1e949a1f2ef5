//! Sending a message to one recipient: a user is invited to a new room, a room is
//! joined, and then the message is sent.

use vstd::prelude::*;
use vstd::string::*;

use crate::message::{no_reports, one_report, report_views, Report, ReportView};
use crate::recipient::{Recipient, RecipientView};
use crate::text::{concat_four, opt_text};

verus! {

/// How far the sending has come.
#[derive(Debug)]
pub enum DeliveryState {
    /// A room for the user is being made.
    Creating,
    /// The room that was made is being looked up.
    Finding { room_id: String },
    /// The room is being joined.
    Joining,
    /// The message is being sent.
    Sending,
    /// The recipient has had the message, or cannot have it.
    Done,
}

/// What came of the last action.
#[derive(Debug)]
pub enum DeliveryEvent {
    /// The room was made.
    Created { room_id: String },
    /// No room could be made.
    NotCreated { cause: String },
    /// The room that was made is known, or is not.
    Looked { found: bool },
    /// The room was joined; the error, if not.
    Joined { error: Option<String> },
    /// The message was sent; the error, if not.
    Sent { error: Option<String> },
}

/// What is to be done next.
#[derive(Debug)]
pub enum DeliveryAction {
    /// Make a direct room and invite the user.
    CreateRoom { user_id: String },
    /// Look up the room.
    FindRoom { room_id: String },
    /// Join the room.
    JoinRoom { alias: String },
    /// Send the message to the room.
    Send,
    /// Nothing is left to be done.
    Finish,
}

/// The next state, what is to be done, and what the operator is told.
#[derive(Debug)]
pub struct DeliveryStep {
    pub state: DeliveryState,
    pub action: DeliveryAction,
    pub reports: Vec<Report>,
}

/// The texts of a `DeliveryState`.
pub enum DeliveryStateView {
    Creating,
    Finding { room_id: Seq<char> },
    Joining,
    Sending,
    Done,
}

/// The texts of a `DeliveryEvent`.
pub enum DeliveryEventView {
    Created { room_id: Seq<char> },
    NotCreated { cause: Seq<char> },
    Looked { found: bool },
    Joined { error: Option<Seq<char>> },
    Sent { error: Option<Seq<char>> },
}

/// The texts of a `DeliveryAction`.
pub enum DeliveryActionView {
    CreateRoom { user_id: Seq<char> },
    FindRoom { room_id: Seq<char> },
    JoinRoom { alias: Seq<char> },
    Send,
    Finish,
}

/// The texts of a `DeliveryStep`.
pub struct DeliveryStepView {
    pub state: DeliveryStateView,
    pub action: DeliveryActionView,
    pub reports: Seq<ReportView>,
}

impl View for DeliveryState {
    type V = DeliveryStateView;

    open spec fn view(&self) -> DeliveryStateView {
        match self {
            DeliveryState::Creating => DeliveryStateView::Creating,
            DeliveryState::Finding { room_id } => DeliveryStateView::Finding { room_id: room_id@ },
            DeliveryState::Joining => DeliveryStateView::Joining,
            DeliveryState::Sending => DeliveryStateView::Sending,
            DeliveryState::Done => DeliveryStateView::Done,
        }
    }
}

impl View for DeliveryEvent {
    type V = DeliveryEventView;

    open spec fn view(&self) -> DeliveryEventView {
        match self {
            DeliveryEvent::Created { room_id } => DeliveryEventView::Created { room_id: room_id@ },
            DeliveryEvent::NotCreated { cause } => DeliveryEventView::NotCreated { cause: cause@ },
            DeliveryEvent::Looked { found } => DeliveryEventView::Looked { found: *found },
            DeliveryEvent::Joined { error } => DeliveryEventView::Joined { error: opt_text(*error) },
            DeliveryEvent::Sent { error } => DeliveryEventView::Sent { error: opt_text(*error) },
        }
    }
}

impl View for DeliveryAction {
    type V = DeliveryActionView;

    open spec fn view(&self) -> DeliveryActionView {
        match self {
            DeliveryAction::CreateRoom { user_id } => DeliveryActionView::CreateRoom {
                user_id: user_id@,
            },
            DeliveryAction::FindRoom { room_id } => DeliveryActionView::FindRoom {
                room_id: room_id@,
            },
            DeliveryAction::JoinRoom { alias } => DeliveryActionView::JoinRoom { alias: alias@ },
            DeliveryAction::Send => DeliveryActionView::Send,
            DeliveryAction::Finish => DeliveryActionView::Finish,
        }
    }
}

impl View for DeliveryStep {
    type V = DeliveryStepView;

    open spec fn view(&self) -> DeliveryStepView {
        DeliveryStepView {
            state: self.state@,
            action: self.action@,
            reports: report_views(self.reports@),
        }
    }
}

impl DeliveryStateView {
    /// `event` is one that can follow in this state, for the given recipient.
    pub open spec fn expects(self, event: DeliveryEventView, recipient: RecipientView) -> bool {
        match self {
            DeliveryStateView::Creating => recipient is User && (event is Created
                || event is NotCreated),
            DeliveryStateView::Finding { .. } => recipient is User && event is Looked,
            DeliveryStateView::Joining => recipient is RoomAlias && event is Joined,
            DeliveryStateView::Sending => event is Sent,
            DeliveryStateView::Done => false,
        }
    }
}

/// The first step for a recipient.
pub open spec fn first_step(recipient: RecipientView) -> DeliveryStepView {
    match recipient {
        RecipientView::User(user_id) => DeliveryStepView {
            state: DeliveryStateView::Creating,
            action: DeliveryActionView::CreateRoom { user_id },
            reports: Seq::empty(),
        },
        RecipientView::RoomAlias(alias) => DeliveryStepView {
            state: DeliveryStateView::Joining,
            action: DeliveryActionView::JoinRoom { alias },
            reports: Seq::empty(),
        },
    }
}

/// The step that ends the sending, with the one thing to report.
pub open spec fn finishing(report: ReportView) -> DeliveryStepView {
    DeliveryStepView {
        state: DeliveryStateView::Done,
        action: DeliveryActionView::Finish,
        reports: seq![report],
    }
}

/// The step that sends the message.
pub open spec fn sending() -> DeliveryStepView {
    DeliveryStepView {
        state: DeliveryStateView::Sending,
        action: DeliveryActionView::Send,
        reports: Seq::empty(),
    }
}

/// What the operator is told of a message that was sent; `to` says whether to a user
/// or to a room, and the title is that of the item, where the message is about one.
pub open spec fn sent_text(title: Option<Seq<char>>, to: Seq<char>, id: Seq<char>) -> Seq<char> {
    match title {
        Some(t) => "Sent item '"@ + t + "' to "@ + to + " '"@ + id + "'"@,
        None => "Sent to "@ + to + " '"@ + id + "'"@,
    }
}

/// What the operator is told when the sending is over.
pub open spec fn sent_report(
    recipient: RecipientView,
    title: Option<Seq<char>>,
    error: Option<Seq<char>>,
) -> ReportView {
    match recipient {
        RecipientView::User(user_id) => match error {
            Some(e) => ReportView::Error("Failed to send message to '"@ + user_id + "': "@ + e),
            None => ReportView::Note(sent_text(title, "user"@, user_id)),
        },
        RecipientView::RoomAlias(alias) => match error {
            Some(e) => ReportView::Error("Failed to send message to room '"@ + alias + "': "@ + e),
            None => ReportView::Note(sent_text(title, "room"@, alias)),
        },
    }
}

/// What follows from `event`.
pub open spec fn delivery_step(
    state: DeliveryStateView,
    event: DeliveryEventView,
    recipient: RecipientView,
    title: Option<Seq<char>>,
) -> DeliveryStepView {
    match event {
        DeliveryEventView::Created { room_id } => DeliveryStepView {
            state: DeliveryStateView::Finding { room_id },
            action: DeliveryActionView::FindRoom { room_id },
            reports: Seq::empty(),
        },
        DeliveryEventView::NotCreated { cause } => finishing(
            ReportView::Error(
                "Failed to create DM room for '"@ + recipient.id() + "': "@ + cause,
            ),
        ),
        DeliveryEventView::Looked { found } => if found {
            sending()
        } else {
            finishing(
                ReportView::Error("Room '"@ + state->room_id + "' not found after creation"@),
            )
        },
        DeliveryEventView::Joined { error } => match error {
            Some(e) => finishing(
                ReportView::Error("Failed to join room '"@ + recipient.id() + "': "@ + e),
            ),
            None => sending(),
        },
        DeliveryEventView::Sent { error } => finishing(sent_report(recipient, title, error)),
    }
}

/// Each of the events is one that can follow, when they happen one after the other.
pub open spec fn can_happen(
    state: DeliveryStateView,
    events: Seq<DeliveryEventView>,
    recipient: RecipientView,
    title: Option<Seq<char>>,
) -> bool
    decreases events.len(),
{
    events.len() > 0 ==> state.expects(events[0], recipient) && can_happen(
        delivery_step(state, events[0], recipient, title).state,
        events.drop_first(),
        recipient,
        title,
    )
}

/// The actions that follow from the events.
pub open spec fn actions(
    state: DeliveryStateView,
    events: Seq<DeliveryEventView>,
    recipient: RecipientView,
    title: Option<Seq<char>>,
) -> Seq<DeliveryActionView>
    decreases events.len(),
{
    if events.len() == 0 {
        Seq::empty()
    } else {
        let step = delivery_step(state, events[0], recipient, title);
        seq![step.action] + actions(step.state, events.drop_first(), recipient, title)
    }
}

/// The state in which the events leave the sending.
pub open spec fn state_after(
    state: DeliveryStateView,
    events: Seq<DeliveryEventView>,
    recipient: RecipientView,
    title: Option<Seq<char>>,
) -> DeliveryStateView
    decreases events.len(),
{
    if events.len() == 0 {
        state
    } else {
        state_after(
            delivery_step(state, events[0], recipient, title).state,
            events.drop_first(),
            recipient,
            title,
        )
    }
}

/// No event can follow in a state.
pub open spec fn is_over(state: DeliveryStateView, recipient: RecipientView) -> bool {
    forall|event: DeliveryEventView| !#[trigger] state.expects(event, recipient)
}

/// The state is one that the sending to the recipient comes to.
pub open spec fn suits(state: DeliveryStateView, recipient: RecipientView) -> bool {
    match state {
        DeliveryStateView::Creating => recipient is User,
        DeliveryStateView::Finding { .. } => recipient is User,
        DeliveryStateView::Joining => recipient is RoomAlias,
        _ => true,
    }
}

/// Some event can follow in each state that suits the recipient but the last.
pub proof fn lemma_over_when_done(state: DeliveryStateView, recipient: RecipientView)
    requires
        suits(state, recipient),
    ensures
        is_over(state, recipient) <==> state is Done,
{
    match state {
        DeliveryStateView::Creating => assert(state.expects(
            DeliveryEventView::NotCreated { cause: Seq::empty() },
            recipient,
        )),
        DeliveryStateView::Finding { .. } => assert(state.expects(
            DeliveryEventView::Looked { found: true },
            recipient,
        )),
        DeliveryStateView::Joining => assert(state.expects(
            DeliveryEventView::Joined { error: None },
            recipient,
        )),
        DeliveryStateView::Sending => assert(state.expects(
            DeliveryEventView::Sent { error: None },
            recipient,
        )),
        DeliveryStateView::Done => {},
    }
}

proof fn lemma_delivery_ends(
    state: DeliveryStateView,
    events: Seq<DeliveryEventView>,
    recipient: RecipientView,
    title: Option<Seq<char>>,
)
    requires
        suits(state, recipient),
        can_happen(state, events, recipient, title),
    ensures
        actions(state, events, recipient, title).len() == events.len(),
        events.len() == 0 ==> (is_over(state, recipient) <==> state is Done),
        events.len() > 0 ==> (is_over(state_after(state, events, recipient, title), recipient)
            <==> actions(state, events, recipient, title).last() is Finish),
    decreases events.len(),
{
    lemma_over_when_done(state, recipient);
    if events.len() > 0 {
        let step = delivery_step(state, events[0], recipient, title);
        let rest = events.drop_first();
        lemma_delivery_ends(step.state, rest, recipient, title);
        if rest.len() > 0 {
            assert(actions(state, events, recipient, title).last() == actions(
                step.state,
                rest,
                recipient,
                title,
            ).last());
        } else {
            assert(actions(state, events, recipient, title) =~= seq![step.action]);
        }
    }
}

/// The sending comes to an end: no more than three events follow each other, and
/// there is one that can follow until the last action is the end, and none then.
pub proof fn law_delivery_ends(
    events: Seq<DeliveryEventView>,
    recipient: RecipientView,
    title: Option<Seq<char>>,
)
    requires
        can_happen(first_step(recipient).state, events, recipient, title),
    ensures
        events.len() <= 3,
        is_over(state_after(first_step(recipient).state, events, recipient, title), recipient)
            <==> events.len() > 0 && actions(
            first_step(recipient).state,
            events,
            recipient,
            title,
        ).last() is Finish,
{
    lemma_delivery_run(first_step(recipient).state, events, recipient, title);
    lemma_delivery_ends(first_step(recipient).state, events, recipient, title);
}

/// How many events can follow in a state, at most.
pub open spec fn events_left(state: DeliveryStateView) -> int {
    match state {
        DeliveryStateView::Creating => 3,
        DeliveryStateView::Finding { .. } => 2,
        DeliveryStateView::Joining => 2,
        DeliveryStateView::Sending => 1,
        DeliveryStateView::Done => 0,
    }
}

/// The event gives a room to send to.
pub open spec fn gives_room(event: DeliveryEventView) -> bool {
    event == (DeliveryEventView::Looked { found: true }) || event == (DeliveryEventView::Joined {
        error: None,
    })
}

proof fn lemma_delivery_run(
    state: DeliveryStateView,
    events: Seq<DeliveryEventView>,
    recipient: RecipientView,
    title: Option<Seq<char>>,
)
    requires
        can_happen(state, events, recipient, title),
    ensures
        events.len() <= events_left(state),
        actions(state, events, recipient, title).len() == events.len(),
        forall|k: int|
            0 <= k < events.len() ==> (#[trigger] actions(state, events, recipient, title)[k] is Send
                <==> gives_room(events[k])),
        forall|k: int|
            0 <= k < events.len() && #[trigger] actions(
                state,
                events,
                recipient,
                title,
            )[k] is Finish ==> k == events.len() - 1,
    decreases events.len(),
{
    if events.len() > 0 {
        let step = delivery_step(state, events[0], recipient, title);
        let rest = events.drop_first();
        let all = actions(state, events, recipient, title);
        let later = actions(step.state, rest, recipient, title);
        lemma_delivery_run(step.state, rest, recipient, title);
        assert(all[0] == step.action);
        assert(forall|k: int| 0 < k < all.len() ==> #[trigger] all[k] == later[k - 1]);
        assert(forall|k: int| 0 < k < events.len() ==> #[trigger] events[k] == rest[k - 1]);
        assert forall|k: int| 0 <= k < events.len() implies (#[trigger] all[k] is Send
            <==> gives_room(events[k])) by {
            if k > 0 {
                assert(later[k - 1] is Send <==> gives_room(rest[k - 1]));
            }
        }
        assert forall|k: int|
            0 <= k < events.len() && #[trigger] all[k] is Finish implies k == events.len() - 1 by {
            if k > 0 {
                assert(later[k - 1] is Finish);
            }
        }
    }
}

/// The message is sent exactly when there is a room to send it to, and nothing
/// follows the end.
pub proof fn law_sent_when_there_is_a_room(
    events: Seq<DeliveryEventView>,
    recipient: RecipientView,
    title: Option<Seq<char>>,
    k: int,
)
    requires
        can_happen(first_step(recipient).state, events, recipient, title),
        0 <= k < events.len(),
    ensures
        actions(first_step(recipient).state, events, recipient, title)[k] is Send <==> gives_room(
            events[k],
        ),
        actions(first_step(recipient).state, events, recipient, title)[k] is Finish ==> k
            == events.len() - 1,
{
    lemma_delivery_run(first_step(recipient).state, events, recipient, title);
}

/// A user is sent to in a new room that they are invited to, a room in itself.
pub proof fn law_first_action(id: Seq<char>)
    ensures
        ({
            let step = first_step(RecipientView::User(id));
            &&& step.state is Creating
            &&& step.action == DeliveryActionView::CreateRoom { user_id: id }
            &&& step.reports.len() == 0
        }),
        ({
            let step = first_step(RecipientView::RoomAlias(id));
            &&& step.state is Joining
            &&& step.action == DeliveryActionView::JoinRoom { alias: id }
            &&& step.reports.len() == 0
        }),
{
}

/// The room that was made for a user is looked up, and the message is sent to it if
/// it is known; otherwise, and where no room could be made, the operator is told and
/// that is the end.
pub proof fn law_user_is_reached(
    state: DeliveryStateView,
    room_id: Seq<char>,
    id: Seq<char>,
    cause: Seq<char>,
    title: Option<Seq<char>>,
)
    ensures
        ({
            let user = RecipientView::User(id);
            let step = delivery_step(state, DeliveryEventView::Created { room_id }, user, title);
            &&& step.state == DeliveryStateView::Finding { room_id }
            &&& step.action == DeliveryActionView::FindRoom { room_id }
            &&& step.reports.len() == 0
        }),
        ({
            let user = RecipientView::User(id);
            let step = delivery_step(state, DeliveryEventView::NotCreated { cause }, user, title);
            &&& step.state is Done
            &&& step.action is Finish
            &&& step.reports == seq![
                ReportView::Error("Failed to create DM room for '"@ + id + "': "@ + cause),
            ]
        }),
        ({
            let user = RecipientView::User(id);
            let finding = DeliveryStateView::Finding { room_id };
            let found = delivery_step(
                finding,
                DeliveryEventView::Looked { found: true },
                user,
                title,
            );
            let lost = delivery_step(
                finding,
                DeliveryEventView::Looked { found: false },
                user,
                title,
            );
            &&& found.state is Sending
            &&& found.action is Send
            &&& found.reports.len() == 0
            &&& lost.state is Done
            &&& lost.action is Finish
            &&& lost.reports == seq![
                ReportView::Error("Room '"@ + room_id + "' not found after creation"@),
            ]
        }),
{
}

/// The message is sent to a room that was joined; where it could not be, the operator
/// is told and that is the end.
pub proof fn law_room_is_reached(
    state: DeliveryStateView,
    alias: Seq<char>,
    cause: Seq<char>,
    title: Option<Seq<char>>,
)
    ensures
        ({
            let room = RecipientView::RoomAlias(alias);
            let joined = delivery_step(
                state,
                DeliveryEventView::Joined { error: None },
                room,
                title,
            );
            let refused = delivery_step(
                state,
                DeliveryEventView::Joined { error: Some(cause) },
                room,
                title,
            );
            &&& joined.state is Sending
            &&& joined.action is Send
            &&& joined.reports.len() == 0
            &&& refused.state is Done
            &&& refused.action is Finish
            &&& refused.reports == seq![
                ReportView::Error("Failed to join room '"@ + alias + "': "@ + cause),
            ]
        }),
{
}

/// When the message was sent, or could not be, that is the end; the operator is told
/// to whom, and of which item if it was about one, or why not.
pub proof fn law_sending_is_told(
    state: DeliveryStateView,
    id: Seq<char>,
    item: Seq<char>,
    cause: Seq<char>,
    recipient: RecipientView,
    title: Option<Seq<char>>,
    error: Option<Seq<char>>,
)
    ensures
        ({
            let step = delivery_step(state, DeliveryEventView::Sent { error }, recipient, title);
            &&& step.state is Done
            &&& step.action is Finish
            &&& step.reports.len() == 1
        }),
        ({
            let sent = DeliveryEventView::Sent { error: None };
            let failed = DeliveryEventView::Sent { error: Some(cause) };
            let user = RecipientView::User(id);
            let room = RecipientView::RoomAlias(id);
            &&& delivery_step(state, sent, user, Some(item)).reports[0] == ReportView::Note(
                "Sent item '"@ + item + "' to user '"@ + id + "'"@,
            )
            &&& delivery_step(state, sent, room, Some(item)).reports[0] == ReportView::Note(
                "Sent item '"@ + item + "' to room '"@ + id + "'"@,
            )
            &&& delivery_step(state, sent, user, None).reports[0] == ReportView::Note(
                "Sent to user '"@ + id + "'"@,
            )
            &&& delivery_step(state, sent, room, None).reports[0] == ReportView::Note(
                "Sent to room '"@ + id + "'"@,
            )
            &&& delivery_step(state, failed, user, title).reports[0] == ReportView::Error(
                "Failed to send message to '"@ + id + "': "@ + cause,
            )
            &&& delivery_step(state, failed, room, title).reports[0] == ReportView::Error(
                "Failed to send message to room '"@ + id + "': "@ + cause,
            )
        }),
{
    reveal_strlit("user");
    reveal_strlit("room");
    reveal_strlit(" '");
    reveal_strlit("' to ");
    reveal_strlit("Sent to ");
    reveal_strlit("' to user '");
    reveal_strlit("' to room '");
    reveal_strlit("Sent to user '");
    reveal_strlit("Sent to room '");
    assert("' to user '"@ =~= "' to "@ + "user"@ + " '"@);
    assert("' to room '"@ =~= "' to "@ + "room"@ + " '"@);
    assert("Sent to user '"@ =~= "Sent to "@ + "user"@ + " '"@);
    assert("Sent to room '"@ =~= "Sent to "@ + "room"@ + " '"@);
    assert(sent_text(Some(item), "user"@, id) =~= "Sent item '"@ + item + "' to user '"@ + id
        + "'"@);
    assert(sent_text(Some(item), "room"@, id) =~= "Sent item '"@ + item + "' to room '"@ + id
        + "'"@);
    assert(sent_text(None, "user"@, id) =~= "Sent to user '"@ + id + "'"@);
    assert(sent_text(None, "room"@, id) =~= "Sent to room '"@ + id + "'"@);
}

/// A room for a user is made or is not, and then known or not; a room is joined or is
/// not; the message is sent or is not; nothing follows the end.
pub proof fn law_delivery_events(
    id: Seq<char>,
    text: Seq<char>,
    found: bool,
    error: Option<Seq<char>>,
    recipient: RecipientView,
    any: DeliveryEventView,
)
    ensures
        DeliveryStateView::Creating.expects(
            DeliveryEventView::Created { room_id: text },
            RecipientView::User(id),
        ),
        DeliveryStateView::Creating.expects(
            DeliveryEventView::NotCreated { cause: text },
            RecipientView::User(id),
        ),
        (DeliveryStateView::Finding { room_id: text }).expects(
            DeliveryEventView::Looked { found },
            RecipientView::User(id),
        ),
        DeliveryStateView::Joining.expects(
            DeliveryEventView::Joined { error },
            RecipientView::RoomAlias(id),
        ),
        DeliveryStateView::Sending.expects(DeliveryEventView::Sent { error }, recipient),
        !DeliveryStateView::Done.expects(any, recipient),
        suits(DeliveryStateView::Sending, recipient),
        suits(first_step(recipient).state, recipient),
        suits(DeliveryStateView::Finding { room_id: text }, RecipientView::User(id)),
{
}

/// States, events, actions and steps are seen by their texts.
pub proof fn law_delivery_views(
    text: String,
    found: bool,
    error: Option<String>,
    step: DeliveryStep,
    title: &str,
)
    ensures
        DeliveryState::Creating@ == DeliveryStateView::Creating,
        (DeliveryState::Finding { room_id: text })@ == (DeliveryStateView::Finding {
            room_id: text@,
        }),
        DeliveryState::Joining@ == DeliveryStateView::Joining,
        DeliveryState::Sending@ == DeliveryStateView::Sending,
        DeliveryState::Done@ == DeliveryStateView::Done,
        (DeliveryEvent::Created { room_id: text })@ == (DeliveryEventView::Created {
            room_id: text@,
        }),
        (DeliveryEvent::NotCreated { cause: text })@ == (DeliveryEventView::NotCreated {
            cause: text@,
        }),
        (DeliveryEvent::Looked { found })@ == (DeliveryEventView::Looked { found }),
        (DeliveryEvent::Joined { error })@ == (DeliveryEventView::Joined {
            error: opt_text(error),
        }),
        (DeliveryEvent::Sent { error })@ == (DeliveryEventView::Sent { error: opt_text(error) }),
        (DeliveryAction::CreateRoom { user_id: text })@ == (DeliveryActionView::CreateRoom {
            user_id: text@,
        }),
        (DeliveryAction::FindRoom { room_id: text })@ == (DeliveryActionView::FindRoom {
            room_id: text@,
        }),
        (DeliveryAction::JoinRoom { alias: text })@ == (DeliveryActionView::JoinRoom {
            alias: text@,
        }),
        DeliveryAction::Send@ == DeliveryActionView::Send,
        DeliveryAction::Finish@ == DeliveryActionView::Finish,
        step@.state == step.state@,
        step@.action == step.action@,
        step@.reports == report_views(step.reports@),
        title_text(Some(title)) == Some(title@),
        title_text(None) is None,
{
}

/// The text of an optional title.
pub open spec fn title_text(title: Option<&str>) -> Option<Seq<char>> {
    match title {
        Some(t) => Some(t@),
        None => None,
    }
}

fn sent_note(title: Option<&str>, to: &str, id: &str) -> (r: String)
    ensures
        r@ == sent_text(title_text(title), to@, id@),
{
    let mut r = match title {
        Some(t) => concat_four("Sent item '", t, "' to ", to),
        None => {
            let mut r = "Sent to ".to_owned();
            r.append(to);
            r
        },
    };
    r.append(" '");
    r.append(id);
    r.append("'");
    r
}

/// What the operator is told when the sending is over.
fn report_sent(recipient: &Recipient, title: Option<&str>, error: &Option<String>) -> (r: Report)
    ensures
        r@ == sent_report(recipient@, title_text(title), opt_text(*error)),
{
    match recipient {
        Recipient::User(id) => match error {
            Some(e) => Report::Error(
                concat_four("Failed to send message to '", id.as_str(), "': ", e.as_str()),
            ),
            None => Report::Note(sent_note(title, "user", id.as_str())),
        },
        Recipient::RoomAlias(alias) => match error {
            Some(e) => Report::Error(
                concat_four("Failed to send message to room '", alias.as_str(), "': ", e.as_str()),
            ),
            None => Report::Note(sent_note(title, "room", alias.as_str())),
        },
    }
}

impl DeliveryStep {
    fn finish(report: Report) -> (r: Self)
        ensures
            r@ == finishing(report@),
    {
        DeliveryStep {
            state: DeliveryState::Done,
            action: DeliveryAction::Finish,
            reports: one_report(report),
        }
    }

    fn send() -> (r: Self)
        ensures
            r@ == sending(),
    {
        DeliveryStep {
            state: DeliveryState::Sending,
            action: DeliveryAction::Send,
            reports: no_reports(),
        }
    }

    /// The first step for a recipient.
    pub fn first(recipient: &Recipient) -> (r: Self)
        ensures
            r@ == first_step(recipient@),
    {
        let reports = no_reports();
        match recipient {
            Recipient::User(id) => DeliveryStep {
                state: DeliveryState::Creating,
                action: DeliveryAction::CreateRoom { user_id: id.clone() },
                reports,
            },
            Recipient::RoomAlias(alias) => DeliveryStep {
                state: DeliveryState::Joining,
                action: DeliveryAction::JoinRoom { alias: alias.clone() },
                reports,
            },
        }
    }

    /// The step that follows when `event` came of the last action. The title is that
    /// of the item that the message is about, if it is about one.
    pub fn next(
        state: DeliveryState,
        event: DeliveryEvent,
        recipient: &Recipient,
        title: Option<&str>,
    ) -> (r: Self)
        requires
            state@.expects(event@, recipient@),
        ensures
            r@ == delivery_step(state@, event@, recipient@, title_text(title)),
    {
        match event {
            DeliveryEvent::Created { room_id } => {
                DeliveryStep {
                    state: DeliveryState::Finding { room_id: room_id.clone() },
                    action: DeliveryAction::FindRoom { room_id },
                    reports: no_reports(),
                }
            },
            DeliveryEvent::NotCreated { cause } => DeliveryStep::finish(
                Report::Error(
                    concat_four(
                        "Failed to create DM room for '",
                        recipient.id(),
                        "': ",
                        cause.as_str(),
                    ),
                ),
            ),
            DeliveryEvent::Looked { found } => {
                if found {
                    DeliveryStep::send()
                } else {
                    let room_id = match state {
                        DeliveryState::Finding { room_id } => room_id,
                        _ => String::new(),
                    };
                    let mut text = "Room '".to_owned();
                    text.append(room_id.as_str());
                    text.append("' not found after creation");
                    DeliveryStep::finish(Report::Error(text))
                }
            },
            DeliveryEvent::Joined { error } => match error {
                Some(e) => DeliveryStep::finish(
                    Report::Error(
                        concat_four("Failed to join room '", recipient.id(), "': ", e.as_str()),
                    ),
                ),
                None => DeliveryStep::send(),
            },
            DeliveryEvent::Sent { error } => DeliveryStep::finish(
                report_sent(recipient, title, &error),
            ),
        }
    }
}

} // verus!
