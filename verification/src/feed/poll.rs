//! The rounds of the bot: sync, fetch the feed, announce what is new to every
//! recipient, record it, sleep.

use vstd::prelude::*;
use vstd::string::*;

use crate::feed::items::{item_views, FeedItem, ItemView};
use crate::message::{no_reports, one_report, report_views, Report, ReportView};
use crate::text::{decimal, decimal_of, opt_text};

verus! {

/// How far a round has come.
#[derive(Clone, Copy, Debug)]
pub enum PollState {
    /// The client learns of the rooms that it has already joined.
    Syncing,
    /// The feed is being fetched.
    Fetching,
    /// An item is being sent to a recipient; both are given by their numbers.
    Announcing { item: usize, recipient: usize },
    /// The items are being recorded.
    Saving,
    /// The round is over.
    Sleeping,
}

/// What came of the last action; the error, if it failed.
#[derive(Debug)]
pub enum PollEvent {
    Synced { error: Option<String> },
    Fetched { error: Option<String> },
    Announced,
    Saved { error: Option<String> },
    Woken,
}

/// What is to be done next.
#[derive(Clone, Copy, Debug)]
pub enum PollAction {
    Sync,
    Fetch,
    Announce { item: usize, recipient: usize },
    Save,
    Sleep,
}

/// The next state, what is to be done, and what the operator is told.
#[derive(Debug)]
pub struct PollStep {
    pub state: PollState,
    pub action: PollAction,
    pub reports: Vec<Report>,
}

/// The texts of a `PollEvent`.
pub enum PollEventView {
    Synced { error: Option<Seq<char>> },
    Fetched { error: Option<Seq<char>> },
    Announced,
    Saved { error: Option<Seq<char>> },
    Woken,
}

/// The texts of a `PollStep`.
pub struct PollStepView {
    pub state: PollState,
    pub action: PollAction,
    pub reports: Seq<ReportView>,
}

impl View for PollEvent {
    type V = PollEventView;

    open spec fn view(&self) -> PollEventView {
        match self {
            PollEvent::Synced { error } => PollEventView::Synced { error: opt_text(*error) },
            PollEvent::Fetched { error } => PollEventView::Fetched { error: opt_text(*error) },
            PollEvent::Announced => PollEventView::Announced,
            PollEvent::Saved { error } => PollEventView::Saved { error: opt_text(*error) },
            PollEvent::Woken => PollEventView::Woken,
        }
    }
}

impl View for PollStep {
    type V = PollStepView;

    open spec fn view(&self) -> PollStepView {
        PollStepView {
            state: self.state,
            action: self.action,
            reports: report_views(self.reports@),
        }
    }
}

impl PollState {
    /// The item and the recipient under way are among the `n` items and the `m`
    /// recipients.
    pub open spec fn valid(self, n: nat, m: nat) -> bool {
        self matches PollState::Announcing { item, recipient } ==> item < n && recipient < m
    }

    /// `event` is one that can follow in this state, with `n` new items; where the
    /// feed could not be fetched there are none.
    pub open spec fn expects(self, event: PollEventView, n: nat) -> bool {
        match self {
            PollState::Syncing => event is Synced,
            PollState::Fetching => event matches PollEventView::Fetched { error } && (
            error is Some ==> n == 0),
            PollState::Announcing { .. } => event is Announced,
            PollState::Saving => event is Saved,
            PollState::Sleeping => event is Woken,
        }
    }
}

/// What the operator is told of an error, if there is one.
pub open spec fn error_reports(error: Option<Seq<char>>) -> Seq<ReportView> {
    match error {
        Some(e) => seq![ReportView::Error(e)],
        None => Seq::empty(),
    }
}

/// What the operator sees of a new item.
pub open spec fn item_note(item: ItemView) -> ReportView {
    ReportView::Note(item.title + " "@ + item.url + "\n\n"@ + item.content)
}

/// What the operator is told of the number of new items.
pub open spec fn found_note(n: nat) -> ReportView {
    ReportView::Note("Found "@ + decimal(n) + " new episode(s) in the feed."@)
}

/// What the operator is told at the end of a round.
pub open spec fn sleep_note(minutes: u64) -> ReportView {
    ReportView::Note("Sleeping for "@ + decimal(minutes as nat) + " minute(s)..."@)
}

/// The step that ends a round.
pub open spec fn sleeping(reports: Seq<ReportView>, minutes: u64) -> PollStepView {
    PollStepView {
        state: PollState::Sleeping,
        action: PollAction::Sleep,
        reports: reports.push(sleep_note(minutes)),
    }
}

/// The turn of the item with number `i`: it is shown, and sent to the first of the
/// `m` recipients, if there are any. After the last item all are recorded, if there
/// were any.
pub open spec fn turn_of(
    i: int,
    items: Seq<ItemView>,
    m: nat,
    reports: Seq<ReportView>,
    minutes: u64,
) -> PollStepView
    decreases items.len() - i,
{
    if i >= items.len() {
        if items.len() > 0 {
            PollStepView { state: PollState::Saving, action: PollAction::Save, reports }
        } else {
            sleeping(reports, minutes)
        }
    } else if m > 0 {
        PollStepView {
            state: PollState::Announcing { item: i as usize, recipient: 0 },
            action: PollAction::Announce { item: i as usize, recipient: 0 },
            reports: reports.push(item_note(items[i])),
        }
    } else {
        turn_of(i + 1, items, m, reports.push(item_note(items[i])), minutes)
    }
}

/// What follows from `event`, with the given new items and `m` recipients.
pub open spec fn poll_step(
    state: PollState,
    event: PollEventView,
    items: Seq<ItemView>,
    m: nat,
    minutes: u64,
) -> PollStepView {
    match event {
        PollEventView::Synced { error } => match error {
            Some(e) => sleeping(seq![ReportView::Error("Sync failed: "@ + e)], minutes),
            None => PollStepView {
                state: PollState::Fetching,
                action: PollAction::Fetch,
                reports: Seq::empty(),
            },
        },
        PollEventView::Fetched { error } => turn_of(
            0,
            items,
            m,
            error_reports(error).push(found_note(items.len())),
            minutes,
        ),
        PollEventView::Announced => {
            let item = state->item;
            let recipient = state->recipient;
            if recipient + 1 < m {
                let next = (recipient + 1) as usize;
                PollStepView {
                    state: PollState::Announcing { item, recipient: next },
                    action: PollAction::Announce { item, recipient: next },
                    reports: Seq::empty(),
                }
            } else {
                turn_of(item + 1, items, m, Seq::empty(), minutes)
            }
        },
        PollEventView::Saved { error } => sleeping(error_reports(error), minutes),
        PollEventView::Woken => PollStepView {
            state: PollState::Syncing,
            action: PollAction::Sync,
            reports: Seq::empty(),
        },
    }
}

/// Each of the events is one that can follow, when they happen one after the other.
pub open spec fn can_happen(
    state: PollState,
    events: Seq<PollEventView>,
    items: Seq<ItemView>,
    m: nat,
    minutes: u64,
) -> bool
    decreases events.len(),
{
    events.len() > 0 ==> state.expects(events[0], items.len()) && can_happen(
        poll_step(state, events[0], items, m, minutes).state,
        events.drop_first(),
        items,
        m,
        minutes,
    )
}

/// The state in which the events leave the round.
pub open spec fn state_after(
    state: PollState,
    events: Seq<PollEventView>,
    items: Seq<ItemView>,
    m: nat,
    minutes: u64,
) -> PollState
    decreases events.len(),
{
    if events.len() == 0 {
        state
    } else {
        state_after(
            poll_step(state, events[0], items, m, minutes).state,
            events.drop_first(),
            items,
            m,
            minutes,
        )
    }
}

/// The items that are sent, each with the recipient it is sent to.
pub open spec fn announcements(
    state: PollState,
    events: Seq<PollEventView>,
    items: Seq<ItemView>,
    m: nat,
    minutes: u64,
) -> Seq<(int, int)>
    decreases events.len(),
{
    if events.len() == 0 {
        Seq::empty()
    } else {
        let step = poll_step(state, events[0], items, m, minutes);
        let rest = announcements(step.state, events.drop_first(), items, m, minutes);
        match step.action {
            PollAction::Announce { item, recipient } => seq![(item as int, recipient as int)]
                + rest,
            _ => rest,
        }
    }
}

/// The item with number `i` with each of the first `c` recipients.
pub open spec fn row(i: int, c: int) -> Seq<(int, int)> {
    Seq::new(c as nat, |k: int| (i, k))
}

/// Each of the first `n` items with each of the `m` recipients.
pub open spec fn all_pairs(n: int, m: int) -> Seq<(int, int)>
    decreases n,
{
    if n <= 0 {
        Seq::empty()
    } else {
        all_pairs(n - 1, m) + row(n - 1, m)
    }
}

/// What has been sent in a state of a round with `n` items and `m` recipients.
pub open spec fn sent_so_far(state: PollState, n: int, m: int) -> Seq<(int, int)> {
    match state {
        PollState::Announcing { item, recipient } => all_pairs(item as int, m) + row(
            item as int,
            recipient + 1,
        ),
        PollState::Fetching => Seq::empty(),
        _ => all_pairs(n, m),
    }
}

proof fn lemma_no_pairs(n: int)
    ensures
        all_pairs(n, 0) == Seq::<(int, int)>::empty(),
    decreases n,
{
    if n > 0 {
        lemma_no_pairs(n - 1);
        assert(all_pairs(n, 0) =~= Seq::empty());
    }
}

proof fn lemma_turn_of(
    i: int,
    items: Seq<ItemView>,
    m: nat,
    reports: Seq<ReportView>,
    minutes: u64,
)
    requires
        0 <= i <= items.len() <= usize::MAX,
    ensures
        ({
            let step = turn_of(i, items, m, reports, minutes);
            if i < items.len() && m > 0 {
                step.state == (PollState::Announcing { item: i as usize, recipient: 0 })
                    && step.action == (PollAction::Announce { item: i as usize, recipient: 0 })
            } else if items.len() > 0 {
                step.state is Saving && step.action is Save
            } else {
                step.state is Sleeping && step.action is Sleep
            }
        }),
    decreases items.len() - i,
{
    if i < items.len() && m == 0 {
        lemma_turn_of(i + 1, items, m, reports.push(item_note(items[i])), minutes);
    }
}

proof fn lemma_sent_so_far(
    state: PollState,
    events: Seq<PollEventView>,
    items: Seq<ItemView>,
    m: nat,
    minutes: u64,
)
    requires
        items.len() <= usize::MAX,
        m <= usize::MAX,
        state.valid(items.len(), m),
        state is Fetching || state is Announcing || state is Saving || (state is Sleeping
            && items.len() == 0),
        can_happen(state, events, items, m, minutes),
        forall|k: int| 0 <= k < events.len() ==> events[k] is Fetched || events[k] is Announced,
    ensures
        ({
            let end = state_after(state, events, items, m, minutes);
            &&& sent_so_far(state, items.len() as int, m as int) + announcements(
                state,
                events,
                items,
                m,
                minutes,
            ) == sent_so_far(end, items.len() as int, m as int)
            &&& end is Sleeping ==> items.len() == 0
            &&& end is Saving ==> items.len() > 0 || state is Saving
        }),
    decreases events.len(),
{
    let n = items.len() as int;
    let sent = sent_so_far(state, n, m as int);
    if events.len() == 0 {
        assert(sent + Seq::<(int, int)>::empty() =~= sent);
    } else {
        let step = poll_step(state, events[0], items, m, minutes);
        let rest = events.drop_first();
        assert(events[0] is Fetched || events[0] is Announced);
        lemma_no_pairs(n);
        match state {
            PollState::Announcing { item, recipient } => {
                if recipient + 1 < m {
                    assert(row(item as int, recipient + 2) =~= row(
                        item as int,
                        recipient + 1,
                    ).push((item as int, recipient + 1)));
                    assert(sent.push((item as int, recipient + 1)) =~= sent_so_far(
                        step.state,
                        n,
                        m as int,
                    ));
                } else {
                    lemma_turn_of(item + 1, items, m, Seq::empty(), minutes);
                    assert(sent == all_pairs(item + 1, m as int));
                    assert(row(item + 1, 1) =~= seq![(item + 1, 0int)]);
                }
            },
            PollState::Fetching => {
                let error = events[0]->Fetched_error;
                lemma_turn_of(
                    0,
                    items,
                    m,
                    error_reports(error).push(found_note(items.len())),
                    minutes,
                );
                assert(row(0, 1) =~= seq![(0int, 0int)]);
            },
            _ => {},
        }
        assert forall|k: int| 0 <= k < rest.len() implies rest[k] is Fetched
            || rest[k] is Announced by {
            assert(rest[k] == events[k + 1]);
        }
        lemma_sent_so_far(step.state, rest, items, m, minutes);
        let later = announcements(step.state, rest, items, m, minutes);
        let now = match step.action {
            PollAction::Announce { item, recipient } => seq![(item as int, recipient as int)],
            _ => Seq::empty(),
        };
        assert(sent + now =~= sent_so_far(step.state, n, m as int));
        assert(announcements(state, events, items, m, minutes) =~= now + later);
        assert(sent + (now + later) =~= (sent + now) + later);
    }
}

/// The items are recorded only after each of them was sent to each recipient, in
/// order and once.
pub proof fn law_recorded_after_all_sent(
    events: Seq<PollEventView>,
    items: Seq<ItemView>,
    m: nat,
    minutes: u64,
)
    requires
        items.len() <= usize::MAX,
        m <= usize::MAX,
        can_happen(PollState::Fetching, events, items, m, minutes),
        forall|k: int| 0 <= k < events.len() ==> events[k] is Fetched || events[k] is Announced,
        state_after(PollState::Fetching, events, items, m, minutes) is Saving,
    ensures
        items.len() > 0,
        announcements(PollState::Fetching, events, items, m, minutes) == all_pairs(
            items.len() as int,
            m as int,
        ),
{
    lemma_sent_so_far(PollState::Fetching, events, items, m, minutes);
    assert(Seq::<(int, int)>::empty() + announcements(
        PollState::Fetching,
        events,
        items,
        m,
        minutes,
    ) =~= announcements(PollState::Fetching, events, items, m, minutes));
}

/// A round without new items records nothing and sends nothing.
pub proof fn law_nothing_new_nothing_sent(
    event: PollEventView,
    m: nat,
    minutes: u64,
)
    requires
        PollState::Fetching.expects(event, 0),
    ensures
        poll_step(PollState::Fetching, event, Seq::empty(), m, minutes).action is Sleep,
{
}

/// A note on each item from number `i` on.
spec fn notes_from(i: int, items: Seq<ItemView>) -> Seq<ReportView> {
    Seq::new(
        (items.len() - i) as nat,
        |k: int|
            ReportView::Note(
                items[i + k].title + " "@ + items[i + k].url + "\n\n"@ + items[i + k].content,
            ),
    )
}

proof fn lemma_turn_without_recipients(
    i: int,
    items: Seq<ItemView>,
    reports: Seq<ReportView>,
    minutes: u64,
)
    requires
        0 <= i <= items.len(),
        items.len() > 0,
    ensures
        turn_of(i, items, 0, reports, minutes).state is Saving,
        turn_of(i, items, 0, reports, minutes).action is Save,
        turn_of(i, items, 0, reports, minutes).reports == reports + notes_from(i, items),
    decreases items.len() - i,
{
    if i == items.len() {
        assert(reports + notes_from(i, items) =~= reports);
    } else {
        let more = reports.push(item_note(items[i]));
        lemma_turn_without_recipients(i + 1, items, more, minutes);
        assert(more + notes_from(i + 1, items) =~= reports + notes_from(i, items)) by {
            assert forall|k: int| 0 <= k < notes_from(i, items).len() implies #[trigger] (reports
                + notes_from(i, items))[reports.len() + k] == (more + notes_from(
                i + 1,
                items,
            ))[reports.len() + k] by {
                if k > 0 {
                    assert(notes_from(i + 1, items)[k - 1] == notes_from(i, items)[k]);
                }
            }
        }
    }
}

/// A round goes on to the feed exactly if the sync worked; if not, the operator is
/// told and the round is over.
pub proof fn law_sync_comes_first(
    state: PollState,
    cause: Seq<char>,
    items: Seq<ItemView>,
    m: nat,
    minutes: u64,
)
    ensures
        ({
            let synced = poll_step(
                state,
                PollEventView::Synced { error: None },
                items,
                m,
                minutes,
            );
            let failed = poll_step(
                state,
                PollEventView::Synced { error: Some(cause) },
                items,
                m,
                minutes,
            );
            &&& synced.state is Fetching
            &&& synced.action is Fetch
            &&& synced.reports.len() == 0
            &&& failed.state is Sleeping
            &&& failed.action is Sleep
            &&& failed.reports == seq![
                ReportView::Error("Sync failed: "@ + cause),
                ReportView::Note("Sleeping for "@ + decimal(minutes as nat) + " minute(s)..."@),
            ]
        }),
{
    assert(seq![ReportView::Error("Sync failed: "@ + cause)].push(sleep_note(minutes)) =~= seq![
        ReportView::Error("Sync failed: "@ + cause),
        sleep_note(minutes),
    ]);
}

/// The operator is told how many episodes were found, and the error before that if
/// the feed could not be fetched. The first item is shown in full, and sent to the
/// first recipient; without recipients all are shown and then recorded; without items
/// the round is over.
pub proof fn law_found_is_told(
    state: PollState,
    error: Option<Seq<char>>,
    items: Seq<ItemView>,
    m: nat,
    minutes: u64,
)
    requires
        items.len() <= usize::MAX,
    ensures
        ({
            let step = poll_step(state, PollEventView::Fetched { error }, items, m, minutes);
            let found = ReportView::Note(
                "Found "@ + decimal(items.len()) + " new episode(s) in the feed."@,
            );
            let told = match error {
                Some(e) => seq![ReportView::Error(e), found],
                None => seq![found],
            };
            &&& items.len() == 0 ==> {
                &&& step.state is Sleeping
                &&& step.action is Sleep
                &&& step.reports == told.push(
                    ReportView::Note("Sleeping for "@ + decimal(minutes as nat) + " minute(s)..."@),
                )
            }
            &&& items.len() > 0 && m > 0 ==> {
                &&& step.state == PollState::Announcing { item: 0, recipient: 0 }
                &&& step.action == PollAction::Announce { item: 0, recipient: 0 }
                &&& step.reports == told.push(
                    ReportView::Note(
                        items[0].title + " "@ + items[0].url + "\n\n"@ + items[0].content,
                    ),
                )
            }
            &&& items.len() > 0 && m == 0 ==> {
                &&& step.state is Saving
                &&& step.action is Save
                &&& step.reports.len() == told.len() + items.len()
                &&& step.reports.take(told.len() as int) == told
                &&& forall|k: int|
                    0 <= k < items.len() ==> step.reports[told.len() + k] == ReportView::Note(
                        (#[trigger] items[k]).title + " "@ + items[k].url + "\n\n"@
                            + items[k].content,
                    )
            }
        }),
{
    let found = found_note(items.len());
    let told = error_reports(error).push(found);
    match error {
        Some(e) => {
            assert(told =~= seq![ReportView::Error(e), found]);
        },
        None => {
            assert(told =~= seq![found]);
        },
    }
    if items.len() > 0 && m == 0 {
        lemma_turn_without_recipients(0, items, told, minutes);
        assert((told + notes_from(0, items)).take(told.len() as int) =~= told);
    }
}

/// After an item was sent to a recipient it goes to the next one; after the last
/// recipient the next item is shown in full and goes to the first one; after the last
/// item all are recorded.
pub proof fn law_announcing_goes_on(
    item: usize,
    recipient: usize,
    items: Seq<ItemView>,
    m: nat,
    minutes: u64,
)
    requires
        items.len() <= usize::MAX,
        m <= usize::MAX,
        item < items.len(),
        recipient < m,
    ensures
        ({
            let step = poll_step(
                PollState::Announcing { item, recipient },
                PollEventView::Announced,
                items,
                m,
                minutes,
            );
            let next = items[item + 1];
            &&& recipient + 1 < m ==> {
                &&& step.state == PollState::Announcing {
                    item,
                    recipient: (recipient + 1) as usize,
                }
                &&& step.action == PollAction::Announce {
                    item,
                    recipient: (recipient + 1) as usize,
                }
                &&& step.reports.len() == 0
            }
            &&& recipient + 1 == m && item + 1 < items.len() ==> {
                &&& step.state == PollState::Announcing {
                    item: (item + 1) as usize,
                    recipient: 0,
                }
                &&& step.action == PollAction::Announce {
                    item: (item + 1) as usize,
                    recipient: 0,
                }
                &&& step.reports == seq![
                    ReportView::Note(next.title + " "@ + next.url + "\n\n"@ + next.content),
                ]
            }
            &&& recipient + 1 == m && item + 1 == items.len() ==> {
                &&& step.state is Saving
                &&& step.action is Save
                &&& step.reports.len() == 0
            }
        }),
{
    if item + 1 < items.len() {
        assert(Seq::<ReportView>::empty().push(item_note(items[item + 1])) =~= seq![
            item_note(items[item + 1]),
        ]);
    }
}

/// After the recording the round is over, whether it worked or not; the operator is
/// told if it did not. After the sleep a round begins with the sync.
pub proof fn law_rounds_end_and_begin(
    state: PollState,
    cause: Seq<char>,
    items: Seq<ItemView>,
    m: nat,
    minutes: u64,
)
    ensures
        ({
            let saved = poll_step(state, PollEventView::Saved { error: None }, items, m, minutes);
            let failed = poll_step(
                state,
                PollEventView::Saved { error: Some(cause) },
                items,
                m,
                minutes,
            );
            let woken = poll_step(state, PollEventView::Woken, items, m, minutes);
            let sleep = ReportView::Note(
                "Sleeping for "@ + decimal(minutes as nat) + " minute(s)..."@,
            );
            &&& saved.state is Sleeping
            &&& saved.action is Sleep
            &&& saved.reports == seq![sleep]
            &&& failed.state is Sleeping
            &&& failed.action is Sleep
            &&& failed.reports == seq![ReportView::Error(cause), sleep]
            &&& woken.state is Syncing
            &&& woken.action is Sync
            &&& woken.reports.len() == 0
        }),
{
    assert(error_reports(None).push(sleep_note(minutes)) =~= seq![sleep_note(minutes)]);
    assert(error_reports(Some(cause)).push(sleep_note(minutes)) =~= seq![
        ReportView::Error(cause),
        sleep_note(minutes),
    ]);
}

/// In each state what was begun works or does not; where the feed could not be
/// fetched there are no items.
pub proof fn law_poll_events(
    error: Option<Seq<char>>,
    item: usize,
    recipient: usize,
    n: nat,
    m: nat,
)
    ensures
        PollState::Syncing.expects(PollEventView::Synced { error }, n),
        PollState::Fetching.expects(PollEventView::Fetched { error: None }, n),
        PollState::Fetching.expects(PollEventView::Fetched { error }, 0),
        (PollState::Announcing { item, recipient }).expects(PollEventView::Announced, n),
        PollState::Saving.expects(PollEventView::Saved { error }, n),
        PollState::Sleeping.expects(PollEventView::Woken, n),
        (PollState::Announcing { item, recipient }).valid(n, m) <==> item < n && recipient < m,
        PollState::Syncing.valid(n, m),
        PollState::Fetching.valid(n, m),
        PollState::Saving.valid(n, m),
        PollState::Sleeping.valid(n, m),
{
}

/// The pairs of items and recipients run through the items and, for each, through
/// all the recipients.
pub proof fn law_all_pairs(n: int, m: int, i: int, j: int)
    requires
        0 <= i < n,
        0 <= j < m,
    ensures
        all_pairs(n, m).len() == n * m,
        0 <= i * m + j < n * m,
        all_pairs(n, m)[i * m + j] == (i, j),
    decreases n,
{
    assert(n * m == (n - 1) * m + m) by (nonlinear_arith);
    if n == 1 {
        assert(i == 0);
        assert(all_pairs(n - 1, m).len() == 0);
        assert(i * m == 0 && (n - 1) * m == 0) by (nonlinear_arith)
            requires
                i == 0,
                n == 1,
        ;
    } else if i < n - 1 {
        law_all_pairs(n - 1, m, i, j);
    } else {
        law_all_pairs(n - 1, m, 0, j);
        assert(i * m == (n - 1) * m);
        assert(0 <= (n - 1) * m) by (nonlinear_arith)
            requires
                n >= 1,
                m >= 1,
        ;
    }
}

/// Events and steps are seen by their texts.
pub proof fn law_poll_views(error: Option<String>, step: PollStep)
    ensures
        (PollEvent::Synced { error })@ == (PollEventView::Synced { error: opt_text(error) }),
        (PollEvent::Fetched { error })@ == (PollEventView::Fetched { error: opt_text(error) }),
        PollEvent::Announced@ == PollEventView::Announced,
        (PollEvent::Saved { error })@ == (PollEventView::Saved { error: opt_text(error) }),
        PollEvent::Woken@ == PollEventView::Woken,
        step@.state == step.state,
        step@.action == step.action,
        step@.reports == report_views(step.reports@),
{
}

/// The seconds of an interval in minutes.
pub fn interval_seconds(minutes: u64) -> (r: u64)
    requires
        minutes * 60 <= u64::MAX,
    ensures
        r == minutes * 60,
{
    minutes * 60
}

fn numbered(before: &str, n: u64, after: &str) -> (r: String)
    ensures
        r@ == before@ + decimal(n as nat) + after@,
{
    let mut r = before.to_owned();
    r.append(decimal_of(n).as_str());
    r.append(after);
    r
}

/// What the operator sees of a new item.
fn note_item(item: &FeedItem) -> (r: Report)
    ensures
        r@ == item_note(item@),
{
    let mut text = item.title.clone();
    text.append(" ");
    text.append(item.url.as_str());
    text.append("\n\n");
    text.append(item.content.as_str());
    Report::Note(text)
}

fn note_error(error: Option<String>) -> (r: Vec<Report>)
    ensures
        report_views(r@) == error_reports(opt_text(error)),
{
    match error {
        Some(e) => one_report(Report::Error(e)),
        None => no_reports(),
    }
}

fn with_report(reports: Vec<Report>, report: Report) -> (r: Vec<Report>)
    ensures
        report_views(r@) == report_views(reports@).push(report@),
{
    let mut r = reports;
    let ghost before = report_views(r@);
    r.push(report);
    assert(report_views(r@) =~= before.push(report@));
    r
}

impl PollStep {
    fn sleep(reports: Vec<Report>, minutes: u64) -> (r: Self)
        ensures
            r@ == sleeping(report_views(reports@), minutes),
    {
        let note = Report::Note(numbered("Sleeping for ", minutes, " minute(s)..."));
        PollStep {
            state: PollState::Sleeping,
            action: PollAction::Sleep,
            reports: with_report(reports, note),
        }
    }

    fn turn(
        start: usize,
        items: &Vec<FeedItem>,
        m: usize,
        reports: Vec<Report>,
        minutes: u64,
    ) -> (r: Self)
        requires
            start <= items@.len(),
        ensures
            r@ == turn_of(
                start as int,
                item_views(items@),
                m as nat,
                report_views(reports@),
                minutes,
            ),
            r.state.valid(items@.len(), m as nat),
    {
        let ghost all = item_views(items@);
        let ghost given = report_views(reports@);
        let mut i: usize = start;
        let mut shown = reports;
        while i < items.len()
            invariant
                i <= items@.len(),
                all == item_views(items@),
                given == report_views(reports@),
                turn_of(start as int, all, m as nat, given, minutes) == turn_of(
                    i as int,
                    all,
                    m as nat,
                    report_views(shown@),
                    minutes,
                ),
            decreases items@.len() - i,
        {
            shown = with_report(shown, note_item(&items[i]));
            if m > 0 {
                return PollStep {
                    state: PollState::Announcing { item: i, recipient: 0 },
                    action: PollAction::Announce { item: i, recipient: 0 },
                    reports: shown,
                };
            }
            i += 1;
        }
        if items.len() > 0 {
            PollStep { state: PollState::Saving, action: PollAction::Save, reports: shown }
        } else {
            PollStep::sleep(shown, minutes)
        }
    }

    /// The first step: the first round begins.
    pub fn first(minutes: u64) -> (r: Self)
        ensures
            r@ == (PollStepView {
                state: PollState::Syncing,
                action: PollAction::Sync,
                reports: seq![
                    ReportView::Note(
                        "Polling every "@ + decimal(minutes as nat)
                            + " minute(s). Press Ctrl+C to stop."@,
                    ),
                ],
            }),
    {
        let text = numbered("Polling every ", minutes, " minute(s). Press Ctrl+C to stop.");
        PollStep {
            state: PollState::Syncing,
            action: PollAction::Sync,
            reports: one_report(Report::Note(text)),
        }
    }

    /// The step that follows when `event` came of the last action. The items are
    /// those that the last fetch found new.
    pub fn next(
        state: PollState,
        event: PollEvent,
        items: &Vec<FeedItem>,
        recipients: usize,
        minutes: u64,
    ) -> (r: Self)
        requires
            state.valid(items@.len(), recipients as nat),
            state.expects(event@, items@.len()),
        ensures
            r@ == poll_step(state, event@, item_views(items@), recipients as nat, minutes),
            r.state.valid(items@.len(), recipients as nat),
    {
        let n: usize = items.len();
        let empty = no_reports();
        match event {
            PollEvent::Synced { error } => match error {
                Some(e) => {
                    let mut text = "Sync failed: ".to_owned();
                    text.append(e.as_str());
                    PollStep::sleep(one_report(Report::Error(text)), minutes)
                },
                None => PollStep {
                    state: PollState::Fetching,
                    action: PollAction::Fetch,
                    reports: empty,
                },
            },
            PollEvent::Fetched { error } => {
                let found = Report::Note(
                    numbered("Found ", n as u64, " new episode(s) in the feed."),
                );
                PollStep::turn(0, items, recipients, with_report(note_error(error), found), minutes)
            },
            PollEvent::Announced => {
                let (item, recipient): (usize, usize) = match state {
                    PollState::Announcing { item, recipient } => (item, recipient),
                    _ => (0, 0),
                };
                if recipient + 1 < recipients {
                    PollStep {
                        state: PollState::Announcing { item, recipient: recipient + 1 },
                        action: PollAction::Announce { item, recipient: recipient + 1 },
                        reports: empty,
                    }
                } else {
                    PollStep::turn(item + 1, items, recipients, empty, minutes)
                }
            },
            PollEvent::Saved { error } => PollStep::sleep(note_error(error), minutes),
            PollEvent::Woken => PollStep {
                state: PollState::Syncing,
                action: PollAction::Sync,
                reports: empty,
            },
        }
    }
}

} // verus!
