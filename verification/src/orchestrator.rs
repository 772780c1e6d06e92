//! The orchestrator: what one polling cycle does next.
//!
//! A cycle is driven from outside. The program sleeps, reads the ledger,
//! fetches the feed, talks to the sinks and writes the ledger; after each of
//! these it reports what happened as an `Event`, and `Orchestrator::step`
//! answers with the next `Action`. What a cycle does is therefore a function
//! of what it was told, and the laws at the end of this file are stated
//! over that function.

use crate::calendar::{day_text, format_day, utc_today};
use crate::mqtt::{session_of, MQTTHandler, MQTTHandlerView, PublishSession, PublishSessionView};
use crate::state::{stored_value, State};
use crate::store::{feed_request, EdfTempoStore, FeedRequest, FeedRequestView, FetchError};
use crate::telegram::{
    day_view, message_text, MessageRequest, MessageRequestView, TGBot, TGBotView,
};
use crate::tempo::{TempoDay, TempoDayView};
use crate::text::same_text;
use vstd::prelude::*;

verus! {

/// What the orchestrator asks the program to do.
#[derive(Debug)]
pub enum Action {
    /// Sleep for this many minutes, then report a `Tick`.
    /// `ledger_write_failed` says that the day just announced could not be
    /// recorded, so that it will be announced again: it deserves a warning.
    Sleep { minutes: u64, ledger_write_failed: bool },
    /// Read the ledger file, then report `LedgerRead`.
    ReadLedger { filename: String },
    /// Fetch the feed and read the answer, then report `Fetched`.
    Fetch(FeedRequest),
    /// Post the message, then report `SinkAttempted`.
    SendMessage(MessageRequest),
    /// Run the publish session, then report `SinkAttempted`.
    Publish(PublishSession),
    /// Make `content`, with nothing after it, the whole content of the
    /// ledger file, then report `LedgerWritten`.
    WriteLedger { filename: String, content: String },
    /// Nothing: the event was not one the cycle waits for.
    Nothing,
}

/// What an `Action` holds.
pub enum ActionView {
    Sleep { minutes: u64, ledger_write_failed: bool },
    ReadLedger { filename: Seq<char> },
    Fetch(FeedRequestView),
    SendMessage(MessageRequestView),
    Publish(PublishSessionView),
    WriteLedger { filename: Seq<char>, content: Seq<char> },
    Nothing,
}

impl View for Action {
    type V = ActionView;

    open spec fn view(&self) -> ActionView {
        match self {
            Action::Sleep { minutes, ledger_write_failed } => ActionView::Sleep {
                minutes: *minutes,
                ledger_write_failed: *ledger_write_failed,
            },
            Action::ReadLedger { filename } => ActionView::ReadLedger { filename: filename@ },
            Action::Fetch(request) => ActionView::Fetch(request@),
            Action::SendMessage(request) => ActionView::SendMessage(request@),
            Action::Publish(session) => ActionView::Publish(session@),
            Action::WriteLedger { filename, content } => ActionView::WriteLedger {
                filename: filename@,
                content: content@,
            },
            Action::Nothing => ActionView::Nothing,
        }
    }
}

impl ActionView {
    /// The action reaches neither the feed, nor a sink, nor the ledger.
    pub open spec fn quiet(self) -> bool {
        self is Sleep || self is Nothing
    }
}

/// What the actions of a list hold.
pub open spec fn actions_view(actions: Seq<Action>) -> Seq<ActionView> {
    Seq::new(actions.len(), |i: int| actions[i]@)
}

/// A channel that a day is announced on.
#[derive(Debug)]
pub enum Sink {
    /// The message channel: one attempt, no confirmation.
    BestEffort(TGBot),
    /// The publish channel: a session that waits for its round trip.
    Acknowledged(MQTTHandler),
}

/// What a `Sink` holds.
pub enum SinkView {
    BestEffort(TGBotView),
    Acknowledged(MQTTHandlerView),
}

impl View for Sink {
    type V = SinkView;

    open spec fn view(&self) -> SinkView {
        match self {
            Sink::BestEffort(bot) => SinkView::BestEffort(bot@),
            Sink::Acknowledged(handler) => SinkView::Acknowledged(handler@),
        }
    }
}

impl SinkView {
    /// What the sink is asked to do for a cycle that woke on the day `now`:
    /// the message sink posts today's line, where today's colour is known,
    /// and tomorrow's; the publish sink publishes tomorrow.
    pub open spec fn announce(
        self,
        now: i32,
        today: Option<TempoDayView>,
        tomorrow: TempoDayView,
    ) -> ActionView {
        match self {
            SinkView::BestEffort(bot) => ActionView::SendMessage(
                bot.request(message_text(today, now, Some(tomorrow), now)),
            ),
            SinkView::Acknowledged(handler) => ActionView::Publish(
                session_of(handler, tomorrow.mqtt_text()),
            ),
        }
    }
}

impl Sink {
    /// What the sink is asked to do for a cycle that woke on the day `now`.
    pub fn notify(&self, today: &Option<TempoDay>, tomorrow: &TempoDay, now: i32) -> (r: Action)
        ensures
            r@ == self@.announce(now, day_view(*today), tomorrow@),
    {
        match self {
            Sink::BestEffort(bot) => {
                let today = match today {
                    Some(day) => Some(day.clone()),
                    None => None,
                };
                Action::SendMessage(bot.handle_day_on(today, Some(tomorrow.clone()), now))
            },
            Sink::Acknowledged(handler) => Action::Publish(handler.handle_day(tomorrow)),
        }
    }
}

/// Where a cycle stands.
#[derive(Debug)]
pub enum Cycle {
    /// Between two cycles.
    Idle,
    /// The days are known, the ledger is being read.
    Evaluating { now: i32, today: String, tomorrow: String },
    /// Tomorrow was announced already: the cycle is over.
    Skipping,
    /// The feed is being fetched.
    Fetching { now: i32, today: String, tomorrow: String },
    /// A sink is being attempted; `pending` is what the sinks after it will
    /// be asked, in order.
    Dispatching { tomorrow: String, pending: Vec<Action> },
    /// The ledger is being written.
    Committing { tomorrow: String },
}

/// What a `Cycle` holds.
pub enum CycleView {
    Idle,
    Evaluating { now: i32, today: Seq<char>, tomorrow: Seq<char> },
    Skipping,
    Fetching { now: i32, today: Seq<char>, tomorrow: Seq<char> },
    Dispatching { tomorrow: Seq<char>, pending: Seq<ActionView> },
    Committing { tomorrow: Seq<char> },
}

impl View for Cycle {
    type V = CycleView;

    open spec fn view(&self) -> CycleView {
        match self {
            Cycle::Idle => CycleView::Idle,
            Cycle::Evaluating { now, today, tomorrow } => CycleView::Evaluating {
                now: *now,
                today: today@,
                tomorrow: tomorrow@,
            },
            Cycle::Skipping => CycleView::Skipping,
            Cycle::Fetching { now, today, tomorrow } => CycleView::Fetching {
                now: *now,
                today: today@,
                tomorrow: tomorrow@,
            },
            Cycle::Dispatching { tomorrow, pending } => CycleView::Dispatching {
                tomorrow: tomorrow@,
                pending: actions_view(pending@),
            },
            Cycle::Committing { tomorrow } => CycleView::Committing { tomorrow: tomorrow@ },
        }
    }
}

/// What the program reports to the orchestrator.
#[derive(Debug)]
pub enum Event {
    /// The sleep is over; `now` is the day the clock shows.
    Tick { now: i32 },
    /// The ledger file was read and holds this, or could not be read.
    LedgerRead(Option<String>),
    /// The feed was fetched and read, or was not.
    Fetched(Result<EdfTempoStore, FetchError>),
    /// A sink was attempted, and did or did not get its message through.
    SinkAttempted { delivered: bool },
    /// The ledger file was written, or could not be.
    LedgerWritten { written: bool },
}

/// What an `Event` holds.
pub enum EventView {
    Tick { now: i32 },
    LedgerRead(Option<Seq<char>>),
    Fetched(Result<Map<Seq<char>, TempoDayView>, FetchError>),
    SinkAttempted { delivered: bool },
    LedgerWritten { written: bool },
}

impl View for Event {
    type V = EventView;

    open spec fn view(&self) -> EventView {
        match self {
            Event::Tick { now } => EventView::Tick { now: *now },
            Event::LedgerRead(content) => EventView::LedgerRead(
                match content {
                    Some(text) => Some(text@),
                    None => None,
                },
            ),
            Event::Fetched(fetched) => EventView::Fetched(
                match fetched {
                    Ok(store) => Ok(store@),
                    Err(e) => Err(*e),
                },
            ),
            Event::SinkAttempted { delivered } => EventView::SinkAttempted {
                delivered: *delivered,
            },
            Event::LedgerWritten { written } => EventView::LedgerWritten { written: *written },
        }
    }
}

/// Today and tomorrow as the ledger and the feed write them, for a clock
/// that shows the day `now`; `None` where chrono cannot write one of them.
pub open spec fn window_of(now: i32) -> Option<(Seq<char>, Seq<char>)> {
    if now < i32::MAX && day_text(now, "%Y-%m-%d"@) is Some && day_text(
        (now + 1) as i32,
        "%Y-%m-%d"@,
    ) is Some {
        Some((day_text(now, "%Y-%m-%d"@).unwrap(), day_text((now + 1) as i32, "%Y-%m-%d"@).unwrap()))
    } else {
        None
    }
}

/// The day that the ledger records, given what reading its file gave: a
/// file that cannot be read records no day.
pub open spec fn last_announced(content: Option<Seq<char>>) -> Seq<char> {
    match content {
        Some(text) => stored_value(text),
        None => Seq::empty(),
    }
}

/// What today's entry of a snapshot gives: today's colour is left out of
/// the message where the snapshot does not hold it.
pub open spec fn today_of(days: Map<Seq<char>, TempoDayView>, today: Seq<char>) -> Option<
    TempoDayView,
> {
    if days.contains_key(today) {
        Some(days[today])
    } else {
        None
    }
}

/// What an `Orchestrator` holds.
pub struct OrchestratorView {
    /// The sinks that are configured, in the order in which they are
    /// attempted.
    pub sinks: Seq<SinkView>,
    /// The name of the ledger's file.
    pub ledger: Seq<char>,
    /// The minutes between two cycles.
    pub loop_time_min: u64,
}

impl OrchestratorView {
    /// The action that ends a cycle.
    pub open spec fn rest(self) -> ActionView {
        ActionView::Sleep { minutes: self.loop_time_min, ledger_write_failed: false }
    }

    /// What the sinks are asked to do, one action for each sink, in the
    /// order of the sinks.
    pub open spec fn announcements(
        self,
        now: i32,
        today: Option<TempoDayView>,
        tomorrow: TempoDayView,
    ) -> Seq<ActionView> {
        Seq::new(self.sinks.len(), |i: int| self.sinks[i].announce(now, today, tomorrow))
    }

    /// The step that records `tomorrow` in the ledger.
    pub open spec fn commit(self, tomorrow: Seq<char>) -> (CycleView, ActionView) {
        (
            CycleView::Committing { tomorrow },
            ActionView::WriteLedger { filename: self.ledger, content: tomorrow },
        )
    }

    /// The step that goes on with the dispatch: the first of the pending
    /// actions if there is one, the ledger otherwise.
    pub open spec fn go_on(self, tomorrow: Seq<char>, pending: Seq<ActionView>) -> (
        CycleView,
        ActionView,
    ) {
        if pending.len() > 0 {
            (CycleView::Dispatching { tomorrow, pending: pending.drop_first() }, pending.first())
        } else {
            self.commit(tomorrow)
        }
    }

    /// The step on a tick: a new cycle opens with the reading of the
    /// ledger.
    pub open spec fn wake(self, now: i32) -> (CycleView, ActionView) {
        match window_of(now) {
            Some((today, tomorrow)) => (
                CycleView::Evaluating { now, today, tomorrow },
                ActionView::ReadLedger { filename: self.ledger },
            ),
            None => (CycleView::Idle, self.rest()),
        }
    }

    /// Where the cycle goes on `event`, and what the program is to do.
    pub open spec fn step(self, cycle: CycleView, event: EventView) -> (CycleView, ActionView) {
        match (cycle, event) {
            (CycleView::Idle, EventView::Tick { now }) => self.wake(now),
            (CycleView::Skipping, EventView::Tick { now }) => self.wake(now),
            (CycleView::Evaluating { now, today, tomorrow }, EventView::LedgerRead(content)) => {
                if last_announced(content) == tomorrow {
                    (CycleView::Skipping, self.rest())
                } else {
                    (
                        CycleView::Fetching { now, today, tomorrow },
                        ActionView::Fetch(feed_request()),
                    )
                }
            },
            (CycleView::Fetching { now, today, tomorrow }, EventView::Fetched(fetched)) => {
                match fetched {
                    Ok(days) => if days.contains_key(tomorrow) {
                        self.go_on(
                            tomorrow,
                            self.announcements(now, today_of(days, today), days[tomorrow]),
                        )
                    } else {
                        (CycleView::Idle, self.rest())
                    },
                    Err(_) => (CycleView::Idle, self.rest()),
                }
            },
            (CycleView::Dispatching { tomorrow, pending }, EventView::SinkAttempted { .. }) => {
                self.go_on(tomorrow, pending)
            },
            (CycleView::Committing { .. }, EventView::LedgerWritten { written }) => (
                CycleView::Idle,
                ActionView::Sleep { minutes: self.loop_time_min, ledger_write_failed: !written },
            ),
            _ => (cycle, ActionView::Nothing),
        }
    }

    /// Where the cycle stands after the events of a list, and the actions
    /// that were asked for on the way, in order.
    pub open spec fn run(self, cycle: CycleView, events: Seq<EventView>) -> (
        CycleView,
        Seq<ActionView>,
    )
        decreases events.len(),
    {
        if events.len() == 0 {
            (cycle, Seq::empty())
        } else {
            let (next, action) = self.step(cycle, events.first());
            let (last, actions) = self.run(next, events.drop_first());
            (last, seq![action] + actions)
        }
    }
}

/// What the sinks of a list hold.
pub open spec fn sinks_view(sinks: Seq<Sink>) -> Seq<SinkView> {
    Seq::new(sinks.len(), |i: int| sinks[i]@)
}

/// The daily poll: the sinks that are configured, the ledger, and the time
/// between two cycles.
#[derive(Debug)]
pub struct Orchestrator {
    sinks: Vec<Sink>,
    ledger: State,
    loop_time_min: u64,
}

impl View for Orchestrator {
    type V = OrchestratorView;

    closed spec fn view(&self) -> OrchestratorView {
        OrchestratorView {
            sinks: sinks_view(self.sinks@),
            ledger: self.ledger@,
            loop_time_min: self.loop_time_min,
        }
    }
}

impl Orchestrator {
    /// The poll that announces to `sinks`, in their order, records what it
    /// did in `ledger`, and sleeps `loop_time_min` minutes between two
    /// cycles.
    pub fn new(sinks: Vec<Sink>, ledger: State, loop_time_min: u64) -> (r: Self)
        ensures
            r@ == (OrchestratorView { sinks: sinks_view(sinks@), ledger: ledger@, loop_time_min }),
    {
        Orchestrator { sinks, ledger, loop_time_min }
    }

    /// How the poll starts: idle, with a sleep before the first cycle.
    pub fn start(&self) -> (r: (Cycle, Action))
        ensures
            r.0@ == CycleView::Idle,
            r.1@ == self@.rest(),
    {
        (Cycle::Idle, self.rest())
    }

    /// The tick of this moment: the day that the system clock shows.
    pub fn tick() -> (r: Event)
        ensures
            r is Tick,
    {
        Event::Tick { now: utc_today() }
    }

    fn rest(&self) -> (r: Action)
        ensures
            r@ == self@.rest(),
    {
        Action::Sleep { minutes: self.loop_time_min, ledger_write_failed: false }
    }

    fn wake(&self, now: i32) -> (r: (Cycle, Action))
        ensures
            (r.0@, r.1@) == self@.wake(now),
    {
        if now == i32::MAX {
            return (Cycle::Idle, self.rest());
        }
        let today = format_day(now, "%Y-%m-%d");
        let tomorrow = format_day(now + 1, "%Y-%m-%d");
        match (today, tomorrow) {
            (Some(today), Some(tomorrow)) => (
                Cycle::Evaluating { now, today, tomorrow },
                Action::ReadLedger { filename: self.ledger.filename().to_owned() },
            ),
            _ => (Cycle::Idle, self.rest()),
        }
    }

    fn commit(&self, tomorrow: String) -> (r: (Cycle, Action))
        ensures
            (r.0@, r.1@) == self@.commit(tomorrow@),
    {
        let content = tomorrow.clone();
        (
            Cycle::Committing { tomorrow },
            Action::WriteLedger { filename: self.ledger.filename().to_owned(), content },
        )
    }

    fn go_on(&self, tomorrow: String, pending: Vec<Action>) -> (r: (Cycle, Action))
        ensures
            (r.0@, r.1@) == self@.go_on(tomorrow@, actions_view(pending@)),
    {
        let mut pending = pending;
        if pending.len() > 0 {
            let ghost before = actions_view(pending@);
            let next = pending.remove(0);
            proof {
                assert(actions_view(pending@) =~= before.drop_first());
            }
            (Cycle::Dispatching { tomorrow, pending }, next)
        } else {
            self.commit(tomorrow)
        }
    }

    /// What the sinks are asked to do, one action for each sink.
    fn announcements(&self, now: i32, today: &Option<TempoDay>, tomorrow: &TempoDay) -> (r: Vec<
        Action,
    >)
        ensures
            actions_view(r@) == self@.announcements(now, day_view(*today), tomorrow@),
    {
        let ghost all = self@.announcements(now, day_view(*today), tomorrow@);
        let mut actions: Vec<Action> = Vec::new();
        let mut i: usize = 0;
        while i < self.sinks.len()
            invariant
                i <= self.sinks.len(),
                all == self@.announcements(now, day_view(*today), tomorrow@),
                all.len() == self.sinks.len(),
                actions.len() == i,
                actions_view(actions@) == all.take(i as int),
            decreases self.sinks.len() - i,
        {
            let ghost before = actions_view(actions@);
            let action = self.sinks[i].notify(today, tomorrow, now);
            proof {
                assert(self@.sinks[i as int] == self.sinks@[i as int]@);
                assert(all[i as int] == action@);
            }
            actions.push(action);
            proof {
                assert forall|j: int| 0 <= j < i + 1 implies actions_view(actions@)[j] == all.take(
                    i + 1,
                )[j] by {
                    if j < i {
                        assert(before[j] == all.take(i as int)[j]);
                    }
                }
                assert(actions_view(actions@) =~= all.take(i + 1));
            }
            i += 1;
        }
        proof {
            assert(all.take(i as int) =~= all);
        }
        actions
    }

    fn fetched(&self, now: i32, today: String, tomorrow: String, store: EdfTempoStore) -> (r: (
        Cycle,
        Action,
    ))
        ensures
            (r.0@, r.1@) == self@.step(
                CycleView::Fetching { now, today: today@, tomorrow: tomorrow@ },
                EventView::Fetched(Ok(store@)),
            ),
    {
        let tomorrow_day = match store.retrieve_tempo_day_state(tomorrow.as_str()) {
            Some(day) => day,
            None => {
                return (Cycle::Idle, self.rest());
            },
        };
        let today_day = store.retrieve_tempo_day_state(today.as_str());
        let pending = self.announcements(now, &today_day, &tomorrow_day);
        self.go_on(tomorrow, pending)
    }

    /// Where the cycle goes on `event`, and what the program is to do next.
    ///
    /// A tick between two cycles opens one. The ledger decides whether the
    /// cycle skips or fetches; the snapshot decides whether it dispatches.
    /// Each sink is attempted once, whatever became of the one before it,
    /// and the ledger is written after the last. An event that the cycle
    /// does not wait for changes nothing.
    pub fn step(&self, cycle: Cycle, event: Event) -> (r: (Cycle, Action))
        ensures
            (r.0@, r.1@) == self@.step(cycle@, event@),
    {
        match cycle {
            Cycle::Idle => match event {
                Event::Tick { now } => self.wake(now),
                _ => (Cycle::Idle, Action::Nothing),
            },
            Cycle::Skipping => match event {
                Event::Tick { now } => self.wake(now),
                _ => (Cycle::Skipping, Action::Nothing),
            },
            Cycle::Evaluating { now, today, tomorrow } => match event {
                Event::LedgerRead(content) => {
                    let last = match content {
                        Some(text) => self.ledger.get(text.as_str()),
                        None => String::new(),
                    };
                    if same_text(last.as_str(), tomorrow.as_str()) {
                        (Cycle::Skipping, self.rest())
                    } else {
                        (
                            Cycle::Fetching { now, today, tomorrow },
                            Action::Fetch(EdfTempoStore::feed_request()),
                        )
                    }
                },
                _ => (Cycle::Evaluating { now, today, tomorrow }, Action::Nothing),
            },
            Cycle::Fetching { now, today, tomorrow } => match event {
                Event::Fetched(Ok(store)) => self.fetched(now, today, tomorrow, store),
                Event::Fetched(Err(_)) => (Cycle::Idle, self.rest()),
                _ => (Cycle::Fetching { now, today, tomorrow }, Action::Nothing),
            },
            Cycle::Dispatching { tomorrow, pending } => match event {
                Event::SinkAttempted { .. } => self.go_on(tomorrow, pending),
                _ => (Cycle::Dispatching { tomorrow, pending }, Action::Nothing),
            },
            Cycle::Committing { tomorrow } => match event {
                Event::LedgerWritten { written } => (
                    Cycle::Idle,
                    Action::Sleep { minutes: self.loop_time_min, ledger_write_failed: !written },
                ),
                _ => (Cycle::Committing { tomorrow }, Action::Nothing),
            },
        }
    }
}

/// No event of the list is a tick.
pub open spec fn tickless(events: Seq<EventView>) -> bool {
    forall|i: int| 0 <= i < events.len() ==> !(#[trigger] events[i] is Tick)
}

/// No action of the list reaches the feed, a sink or the ledger.
pub open spec fn all_quiet(actions: Seq<ActionView>) -> bool {
    forall|i: int| 0 <= i < actions.len() ==> (#[trigger] actions[i]).quiet()
}

/// One report for each attempt of a sink: `outcomes` says, in order, whether
/// each attempt got its message through.
pub open spec fn attempts(outcomes: Seq<bool>) -> Seq<EventView> {
    Seq::new(outcomes.len(), |i: int| EventView::SinkAttempted { delivered: outcomes[i] })
}

/// Running a list of events is taking the first step, then running the
/// rest.
proof fn lemma_run_first(
    o: OrchestratorView,
    cycle: CycleView,
    event: EventView,
    rest: Seq<EventView>,
)
    ensures
        o.run(cycle, seq![event] + rest) == (
            o.run(o.step(cycle, event).0, rest).0,
            seq![o.step(cycle, event).1] + o.run(o.step(cycle, event).0, rest).1,
        ),
{
    let events = seq![event] + rest;
    assert(events.first() == event);
    assert(events.drop_first() =~= rest);
}

/// Once a sink is being attempted, the sinks after it are each asked in
/// turn, one for each report, whatever the reports say, and the ledger is
/// written after the last.
proof fn lemma_dispatch_runs(
    o: OrchestratorView,
    tomorrow: Seq<char>,
    pending: Seq<ActionView>,
    outcomes: Seq<bool>,
)
    requires
        outcomes.len() == pending.len() + 1,
    ensures
        o.run(CycleView::Dispatching { tomorrow, pending }, attempts(outcomes)) == (
            CycleView::Committing { tomorrow },
            pending + seq![ActionView::WriteLedger { filename: o.ledger, content: tomorrow }],
        ),
    decreases pending.len(),
{
    let cycle = CycleView::Dispatching { tomorrow, pending };
    let events = attempts(outcomes);
    let write = ActionView::WriteLedger { filename: o.ledger, content: tomorrow };
    let later = attempts(outcomes.drop_first());
    assert(events =~= seq![events[0]] + later);
    lemma_run_first(o, cycle, events[0], later);
    if pending.len() > 0 {
        lemma_dispatch_runs(o, tomorrow, pending.drop_first(), outcomes.drop_first());
        assert(seq![pending.first()] + (pending.drop_first() + seq![write]) =~= pending + seq![
            write,
        ]);
    } else {
        assert(later =~= Seq::<EventView>::empty());
        assert(seq![write] + Seq::<ActionView>::empty() =~= pending + seq![write]);
    }
}

/// Between two cycles nothing happens before the next tick: whatever else
/// is reported, no action reaches the feed, a sink or the ledger.
pub proof fn lemma_nothing_happens_between_cycles(
    o: OrchestratorView,
    cycle: CycleView,
    events: Seq<EventView>,
)
    requires
        cycle is Idle || cycle is Skipping,
        tickless(events),
    ensures
        o.run(cycle, events).0 == cycle,
        o.run(cycle, events).1.len() == events.len(),
        all_quiet(o.run(cycle, events).1),
    decreases events.len(),
{
    if events.len() > 0 {
        assert(!(events[0] is Tick));
        let rest = events.drop_first();
        assert forall|i: int| 0 <= i < rest.len() implies !(#[trigger] rest[i] is Tick) by {
            assert(rest[i] == events[i + 1]);
        }
        lemma_nothing_happens_between_cycles(o, cycle, rest);
    }
}

/// A day that the ledger already records is not announced again. Where the
/// ledger reads tomorrow's date, the cycle skips: from the reading of the
/// ledger to the next tick the feed is not fetched, no sink is attempted and
/// the ledger is not written.
pub proof fn lemma_announced_day_is_skipped(
    o: OrchestratorView,
    now: i32,
    today: Seq<char>,
    tomorrow: Seq<char>,
    content: Option<Seq<char>>,
    rest: Seq<EventView>,
)
    requires
        last_announced(content) == tomorrow,
        tickless(rest),
    ensures
        o.run(
            CycleView::Evaluating { now, today, tomorrow },
            seq![EventView::LedgerRead(content)] + rest,
        ).0 == CycleView::Skipping,
        all_quiet(
            o.run(
                CycleView::Evaluating { now, today, tomorrow },
                seq![EventView::LedgerRead(content)] + rest,
            ).1,
        ),
{
    let cycle = CycleView::Evaluating { now, today, tomorrow };
    lemma_run_first(o, cycle, EventView::LedgerRead(content), rest);
    lemma_nothing_happens_between_cycles(o, CycleView::Skipping, rest);
}

/// A snapshot without tomorrow announces nothing. Where the feed does not
/// yet hold tomorrow's date, the cycle ends: up to the next tick no sink is
/// attempted and the ledger is not written.
pub proof fn lemma_missing_tomorrow_is_tolerated(
    o: OrchestratorView,
    now: i32,
    today: Seq<char>,
    tomorrow: Seq<char>,
    days: Map<Seq<char>, TempoDayView>,
    rest: Seq<EventView>,
)
    requires
        !days.contains_key(tomorrow),
        tickless(rest),
    ensures
        o.run(
            CycleView::Fetching { now, today, tomorrow },
            seq![EventView::Fetched(Ok(days))] + rest,
        ).0 == CycleView::Idle,
        all_quiet(
            o.run(
                CycleView::Fetching { now, today, tomorrow },
                seq![EventView::Fetched(Ok(days))] + rest,
            ).1,
        ),
{
    let cycle = CycleView::Fetching { now, today, tomorrow };
    lemma_run_first(o, cycle, EventView::Fetched(Ok(days)), rest);
    lemma_nothing_happens_between_cycles(o, CycleView::Idle, rest);
}

/// A fetch that fails announces nothing and leaves the ledger alone, so
/// that the next tick tries again.
pub proof fn lemma_failed_fetch_is_retried(
    o: OrchestratorView,
    now: i32,
    today: Seq<char>,
    tomorrow: Seq<char>,
    error: FetchError,
    rest: Seq<EventView>,
)
    requires
        tickless(rest),
    ensures
        o.run(
            CycleView::Fetching { now, today, tomorrow },
            seq![EventView::Fetched(Err(error))] + rest,
        ).0 == CycleView::Idle,
        all_quiet(
            o.run(
                CycleView::Fetching { now, today, tomorrow },
                seq![EventView::Fetched(Err(error))] + rest,
            ).1,
        ),
{
    let cycle = CycleView::Fetching { now, today, tomorrow };
    lemma_run_first(o, cycle, EventView::Fetched(Err(error)), rest);
    lemma_nothing_happens_between_cycles(o, CycleView::Idle, rest);
}

/// A fresh day is announced once. Where the ledger does not read
/// tomorrow's date and the snapshot holds tomorrow, the cycle fetches the
/// feed, asks each sink exactly once, in order, to announce tomorrow's day,
/// whatever became of each attempt, and then writes tomorrow's date to the
/// ledger.
pub proof fn lemma_fresh_day_is_announced(
    o: OrchestratorView,
    now: i32,
    today: Seq<char>,
    tomorrow: Seq<char>,
    content: Option<Seq<char>>,
    days: Map<Seq<char>, TempoDayView>,
    outcomes: Seq<bool>,
)
    requires
        last_announced(content) != tomorrow,
        days.contains_key(tomorrow),
        outcomes.len() == o.sinks.len(),
    ensures
        o.run(
            CycleView::Evaluating { now, today, tomorrow },
            seq![EventView::LedgerRead(content), EventView::Fetched(Ok(days))] + attempts(
                outcomes,
            ),
        ) == (
            CycleView::Committing { tomorrow },
            seq![ActionView::Fetch(feed_request())] + o.announcements(
                now,
                today_of(days, today),
                days[tomorrow],
            ) + seq![ActionView::WriteLedger { filename: o.ledger, content: tomorrow }],
        ),
{
    let c0 = CycleView::Evaluating { now, today, tomorrow };
    let e0 = EventView::LedgerRead(content);
    let e1 = EventView::Fetched(Ok(days));
    let reports = attempts(outcomes);
    let c1 = CycleView::Fetching { now, today, tomorrow };
    let asked = o.announcements(now, today_of(days, today), days[tomorrow]);
    let write = ActionView::WriteLedger { filename: o.ledger, content: tomorrow };
    let fetch = ActionView::Fetch(feed_request());
    assert(seq![e0, e1] + reports =~= seq![e0] + (seq![e1] + reports));
    lemma_run_first(o, c0, e0, seq![e1] + reports);
    lemma_run_first(o, c1, e1, reports);
    if asked.len() > 0 {
        lemma_dispatch_runs(o, tomorrow, asked.drop_first(), outcomes);
        assert(seq![fetch] + (seq![asked.first()] + (asked.drop_first() + seq![write])) =~= seq![
            fetch,
        ] + asked + seq![write]);
    } else {
        assert(reports =~= Seq::<EventView>::empty());
        assert(seq![fetch] + (seq![write] + Seq::<ActionView>::empty()) =~= seq![fetch] + asked
            + seq![write]);
    }
}

/// The sinks are isolated from each other: what the cycle does after the
/// attempt of a sink does not depend on what became of the attempt. A
/// message that fails does not keep the publication from running, and a
/// publication that fails does not keep the ledger from being written.
pub proof fn lemma_sinks_are_isolated(
    o: OrchestratorView,
    cycle: CycleView,
    one: bool,
    other: bool,
)
    ensures
        o.step(cycle, EventView::SinkAttempted { delivered: one }) == o.step(
            cycle,
            EventView::SinkAttempted { delivered: other },
        ),
{
}

} // verus!
