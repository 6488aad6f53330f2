//! The reconciliation decision logic: one call of [`tick`] per polling
//! iteration turns an observation of the remote store (the current time and
//! the list of remote events) into a plan of actions — which reminders to
//! send, which stale events to delete, whether to create the next weekly
//! event — together with the loop state to carry into the next iteration.
//!
//! The caller performs the planned actions against the remote store and owns
//! the loop; everything decided here is pure and fully specified.

use vstd::prelude::*;
use crate::clock::{Moment, weekday_of, weekday_after, spec_next_occurrence, spec_one_hour_after,
    next_occurrence, one_hour_after};

verus! {

/// Static scheduling configuration: the managed event's name and the weekly
/// slot (weekday number and hour of day) it must occupy. Loaded once at
/// startup and never mutated.
pub struct ScheduleConfig {
    /// Name identifying the managed event among all remote events.
    pub event_name: String,
    /// Weekday of the weekly slot, `0..7` (0 is the first weekday of the week
    /// numbering used by `Moment::day`).
    pub target_weekday: u8,
    /// Hour of day of the weekly slot, `0..24`.
    pub target_hour: u8,
}

impl ScheduleConfig {
    /// Well-formedness: weekday and hour are in range.
    pub open spec fn wf(self) -> bool {
        self.target_weekday < 7 && self.target_hour < 24
    }
}

/// The loop's only mutable state: whether each fixed-offset reminder has
/// already been sent for the current event instance.
#[derive(Clone, Copy, PartialEq, Eq, Structural, Debug)]
pub struct LoopState {
    /// The reminder eight hours before the start has been sent.
    pub eight_hour_sent: bool,
    /// The reminder one hour before the start has been sent.
    pub one_hour_sent: bool,
}

impl LoopState {
    /// The state at startup and immediately after a new event is created:
    /// neither reminder has been sent.
    pub fn fresh() -> (r: LoopState)
        ensures
            !r.eight_hour_sent,
            !r.one_hour_sent,
    {
        LoopState { eight_hour_sent: false, one_hour_sent: false }
    }
}

/// An event as observed on the remote store.
pub struct RemoteEvent {
    /// The store's identifier for the event.
    pub id: u64,
    /// The guild (community) the event belongs to.
    pub guild_id: u64,
    /// The event's display name; equality with the configured name marks an
    /// event as managed.
    pub name: String,
    /// The event's scheduled start.
    pub start: Moment,
}

/// One observation of the outside world, taken at the top of a tick: the
/// current local time and the full list of remote events of the guild.
pub struct Observation {
    /// The current local time.
    pub now: Moment,
    /// All scheduled events currently present on the remote store.
    pub events: Vec<RemoteEvent>,
}

impl Observation {
    /// Well-formedness: the time is in range and far enough from the end of
    /// the representable day range that a week ahead is still representable.
    pub open spec fn wf(self) -> bool {
        self.now.wf() && self.now.day + 8 <= u64::MAX
    }
}

/// The start and end of an event to be created.
#[derive(Clone, Copy, PartialEq, Eq, Structural, Debug)]
pub struct EventWindow {
    /// Scheduled start.
    pub start: Moment,
    /// Scheduled end, one hour after the start.
    pub end: Moment,
}

/// The actions one tick decides on. The caller sends the reminders that are
/// flagged, deletes the listed events, creates the event described by
/// `create` (purging the announcement channel and posting a fresh
/// announcement on success), and carries `next_state` into the next tick.
pub struct TickPlan {
    /// Send the eight-hour reminder to the announcement channel.
    pub send_eight_hour_reminder: bool,
    /// Send the one-hour reminder to the announcement channel.
    pub send_one_hour_reminder: bool,
    /// Identifiers of stale managed events to delete from the remote store.
    pub stale_event_ids: Vec<u64>,
    /// When no managed event exists, the window of the event to create.
    pub create: Option<EventWindow>,
    /// The loop state after this tick.
    pub next_state: LoopState,
}

/// How many of `events` are managed: their name equals `name`.
pub open spec fn managed_count(events: Seq<RemoteEvent>, name: Seq<char>) -> nat
    decreases events.len(),
{
    if events.len() == 0 {
        0
    } else {
        managed_count(events.drop_last(), name) + (if events.last().name@ == name {
            1nat
        } else {
            0nat
        })
    }
}

/// The identifiers of the managed events among `events` whose start day
/// precedes `next_day`, in observation order.
pub open spec fn stale_managed_ids(events: Seq<RemoteEvent>, name: Seq<char>, next_day: u64) -> Seq<
    u64,
>
    decreases events.len(),
{
    if events.len() == 0 {
        Seq::empty()
    } else {
        let rest = stale_managed_ids(events.drop_last(), name, next_day);
        if events.last().name@ == name && events.last().start.day < next_day {
            rest.push(events.last().id)
        } else {
            rest
        }
    }
}

/// How many events of the observation are managed.
pub open spec fn observed_managed_count(cfg: ScheduleConfig, obs: Observation) -> nat {
    managed_count(obs.events@, cfg.event_name@)
}

/// The tick creates a new event exactly when no managed event was observed.
pub open spec fn creates(cfg: ScheduleConfig, obs: Observation) -> bool {
    observed_managed_count(cfg, obs) == 0
}

/// The eight-hour reminder is due: today is the target weekday, the start is
/// exactly eight hours ahead by whole-hour subtraction, a managed event
/// exists, and this reminder has not been sent yet.
pub open spec fn eight_hour_due(cfg: ScheduleConfig, state: LoopState, obs: Observation) -> bool {
    weekday_of(obs.now.day) == cfg.target_weekday && cfg.target_hour - obs.now.hour == 8
        && observed_managed_count(cfg, obs) > 0 && !state.eight_hour_sent
}

/// The one-hour reminder is due: as for the eight-hour reminder, with a
/// whole-hour gap of exactly one.
pub open spec fn one_hour_due(cfg: ScheduleConfig, state: LoopState, obs: Observation) -> bool {
    weekday_of(obs.now.day) == cfg.target_weekday && cfg.target_hour - obs.now.hour == 1
        && observed_managed_count(cfg, obs) > 0 && !state.one_hour_sent
}

/// The stale deletions a tick decides on: on the day immediately after the
/// target weekday, every managed event starting before the next computed
/// occurrence; on any other day, none.
pub open spec fn spec_stale_ids(cfg: ScheduleConfig, obs: Observation) -> Seq<u64> {
    if weekday_of(obs.now.day) == weekday_after(cfg.target_weekday) {
        stale_managed_ids(
            obs.events@,
            cfg.event_name@,
            spec_next_occurrence(obs.now, cfg.target_weekday, cfg.target_hour).day,
        )
    } else {
        Seq::empty()
    }
}

/// The window of the event a tick creates when none is observed: the next
/// occurrence of the weekly slot, one hour long.
pub open spec fn spec_create_window(cfg: ScheduleConfig, obs: Observation) -> EventWindow {
    let start = spec_next_occurrence(obs.now, cfg.target_weekday, cfg.target_hour);
    EventWindow { start, end: spec_one_hour_after(start) }
}

/// The loop state after a tick: reset on creation, otherwise each flag is
/// raised when its reminder fires and never lowered.
pub open spec fn spec_next_state(cfg: ScheduleConfig, state: LoopState, obs: Observation) -> LoopState {
    if creates(cfg, obs) {
        LoopState { eight_hour_sent: false, one_hour_sent: false }
    } else {
        LoopState {
            eight_hour_sent: state.eight_hour_sent || eight_hour_due(cfg, state, obs),
            one_hour_sent: state.one_hour_sent || one_hour_due(cfg, state, obs),
        }
    }
}

/// One reconciliation step: decide every action of this tick from the
/// configuration, the carried state and the observation.
pub fn tick(cfg: &ScheduleConfig, state: &LoopState, obs: &Observation) -> (plan: TickPlan)
    requires
        cfg.wf(),
        obs.wf(),
    ensures
        plan.send_eight_hour_reminder == eight_hour_due(*cfg, *state, *obs),
        plan.send_one_hour_reminder == one_hour_due(*cfg, *state, *obs),
        plan.stale_event_ids@ == spec_stale_ids(*cfg, *obs),
        plan.create == if creates(*cfg, *obs) {
            Some(spec_create_window(*cfg, *obs))
        } else {
            None::<EventWindow>
        },
        plan.next_state == spec_next_state(*cfg, *state, *obs),
        // a creating tick creates exactly one event, scheduled on the weekly
        // slot strictly within the week ahead, one hour long, and leaves both
        // reminder flags cleared
        creates(*cfg, *obs) ==> {
            &&& plan.create matches Some(w)
            &&& w.start.wf()
            &&& weekday_of(w.start.day) == cfg.target_weekday
            &&& w.start.hour == cfg.target_hour
            &&& w.start.minute == 0
            &&& obs.now.day < w.start.day <= obs.now.day + 7
            &&& w.end.total_minutes() == w.start.total_minutes() + 60
            &&& !plan.next_state.eight_hour_sent
            &&& !plan.next_state.one_hour_sent
        },
{
    let next_start = next_occurrence(&obs.now, cfg.target_weekday, cfg.target_hour);
    let cleanup_weekday: u8 = if cfg.target_weekday + 1 < 7 {
        cfg.target_weekday + 1
    } else {
        0
    };
    let is_cleanup_day: bool = obs.now.day % 7 == cleanup_weekday as u64;

    let n = obs.events.len();
    let mut managed_n: usize = 0;
    let mut stale: Vec<u64> = Vec::new();
    let mut i: usize = 0;
    while i < n
        invariant
            i <= n,
            n == obs.events.len(),
            managed_n <= i,
            cfg.wf(),
            obs.wf(),
            next_start == spec_next_occurrence(obs.now, cfg.target_weekday, cfg.target_hour),
            is_cleanup_day == (weekday_of(obs.now.day) == weekday_after(cfg.target_weekday)),
            managed_n as nat == managed_count(obs.events@.take(i as int), cfg.event_name@),
            stale@ == if is_cleanup_day {
                stale_managed_ids(obs.events@.take(i as int), cfg.event_name@, next_start.day)
            } else {
                Seq::<u64>::empty()
            },
        decreases n - i,
    {
        proof {
            assert(obs.events@.take(i + 1).drop_last() =~= obs.events@.take(i as int));
            assert(obs.events@.take(i + 1).last() == obs.events@[i as int]);
        }
        let e = &obs.events[i];
        if e.name == cfg.event_name {
            managed_n += 1;
            if is_cleanup_day && e.start.day < next_start.day {
                stale.push(e.id);
            }
        }
        i += 1;
    }
    proof {
        assert(obs.events@.take(n as int) =~= obs.events@);
    }

    let is_target_day: bool = obs.now.day % 7 == cfg.target_weekday as u64;
    let hour_gap: i16 = cfg.target_hour as i16 - obs.now.hour as i16;
    let send_eight = is_target_day && hour_gap == 8 && managed_n > 0 && !state.eight_hour_sent;
    let send_one = is_target_day && hour_gap == 1 && managed_n > 0 && !state.one_hour_sent;

    let create: Option<EventWindow> = if managed_n == 0 {
        let end = one_hour_after(&next_start);
        Some(EventWindow { start: next_start, end })
    } else {
        None
    };

    let next_state = if managed_n == 0 {
        LoopState::fresh()
    } else {
        LoopState {
            eight_hour_sent: state.eight_hour_sent || send_eight,
            one_hour_sent: state.one_hour_sent || send_one,
        }
    };

    TickPlan {
        send_eight_hour_reminder: send_eight,
        send_one_hour_reminder: send_one,
        stale_event_ids: stale,
        create,
        next_state,
    }
}

/// How many times `id` occurs in `ids`.
pub open spec fn occurrences(ids: Seq<u64>, id: u64) -> nat
    decreases ids.len(),
{
    if ids.len() == 0 {
        0
    } else {
        occurrences(ids.drop_last(), id) + (if ids.last() == id {
            1nat
        } else {
            0nat
        })
    }
}

/// The event at index `i` of the observation is stale and managed: its name
/// is the configured one and its start day precedes the next computed
/// occurrence of the weekly slot.
pub open spec fn event_is_stale(cfg: ScheduleConfig, obs: Observation, i: int) -> bool {
    obs.events@[i].name@ == cfg.event_name@ && obs.events@[i].start.day
        < spec_next_occurrence(obs.now, cfg.target_weekday, cfg.target_hour).day
}

/// An identifier that belongs to no stale managed event is never listed for
/// deletion.
proof fn lemma_absent_id_not_listed(events: Seq<RemoteEvent>, name: Seq<char>, next_day: u64, id: u64)
    requires
        forall|i: int|
            0 <= i < events.len() ==> ((#[trigger] events[i]).id != id || !(events[i].name@ == name
                && events[i].start.day < next_day)),
    ensures
        occurrences(stale_managed_ids(events, name, next_day), id) == 0,
    decreases events.len(),
{
    if events.len() > 0 {
        let rest = events.drop_last();
        assert(forall|i: int| 0 <= i < rest.len() ==> rest[i] == events[i]);
        lemma_absent_id_not_listed(rest, name, next_day, id);
        let rest_ids = stale_managed_ids(rest, name, next_day);
        if events.last().name@ == name && events.last().start.day < next_day {
            assert(events[events.len() - 1] == events.last());
            assert(rest_ids.push(events.last().id).drop_last() =~= rest_ids);
        }
    }
}

/// Under distinct identifiers, the deletion list names the identifier of
/// each stale managed event exactly once and every other event's identifier
/// not at all.
proof fn lemma_stale_ids_occurrences(events: Seq<RemoteEvent>, name: Seq<char>, next_day: u64)
    requires
        forall|i: int, j: int|
            0 <= i < j < events.len() ==> (#[trigger] events[i]).id != (#[trigger] events[j]).id,
    ensures
        forall|i: int|
            0 <= i < events.len() && (#[trigger] events[i]).name@ == name && events[i].start.day
                < next_day ==> occurrences(stale_managed_ids(events, name, next_day), events[i].id)
                == 1,
        forall|i: int|
            0 <= i < events.len() && !((#[trigger] events[i]).name@ == name && events[i].start.day
                < next_day) ==> occurrences(stale_managed_ids(events, name, next_day), events[i].id)
                == 0,
    decreases events.len(),
{
    if events.len() > 0 {
        let n = events.len() as int;
        let rest = events.drop_last();
        let last = events.last();
        assert(forall|i: int| 0 <= i < rest.len() ==> rest[i] == events[i]);
        assert(events[n - 1] == last);
        lemma_stale_ids_occurrences(rest, name, next_day);
        let ids = stale_managed_ids(events, name, next_day);
        let rest_ids = stale_managed_ids(rest, name, next_day);
        let last_stale = last.name@ == name && last.start.day < next_day;
        if last_stale {
            assert(ids == rest_ids.push(last.id));
            assert(ids.drop_last() =~= rest_ids);
            assert(ids.last() == last.id);
            // the last event's own identifier is new to the list
            assert(forall|i: int|
                0 <= i < rest.len() ==> ((#[trigger] rest[i]).id != last.id || !(rest[i].name@
                    == name && rest[i].start.day < next_day)));
            lemma_absent_id_not_listed(rest, name, next_day, last.id);
            assert(occurrences(ids, last.id) == 1);
        } else {
            assert(ids == rest_ids);
            assert(forall|i: int|
                0 <= i < rest.len() ==> ((#[trigger] rest[i]).id != last.id || !(rest[i].name@
                    == name && rest[i].start.day < next_day)));
            lemma_absent_id_not_listed(rest, name, next_day, last.id);
            assert(occurrences(ids, last.id) == 0);
        }
    }
}

/// The stale-cleanup policy. On the day immediately after the target
/// weekday, a managed event whose start day precedes the newly computed
/// next occurrence is slated for deletion exactly once; an event whose
/// start day is on or after it — or that is not managed — never is. On any
/// other day nothing is slated. Remote events are told apart by their
/// identifiers, which the store keeps unique.
pub proof fn lemma_stale_cleanup_policy(cfg: ScheduleConfig, obs: Observation)
    requires
        forall|i: int, j: int|
            0 <= i < j < obs.events@.len() ==> (#[trigger] obs.events@[i]).id
                != (#[trigger] obs.events@[j]).id,
    ensures
        weekday_of(obs.now.day) != weekday_after(cfg.target_weekday) ==> spec_stale_ids(cfg, obs).len()
            == 0,
        weekday_of(obs.now.day) == weekday_after(cfg.target_weekday) ==> forall|i: int|
            0 <= i < obs.events@.len() && #[trigger] event_is_stale(cfg, obs, i) ==> occurrences(
                spec_stale_ids(cfg, obs),
                obs.events@[i].id,
            ) == 1,
        weekday_of(obs.now.day) == weekday_after(cfg.target_weekday) ==> forall|i: int|
            0 <= i < obs.events@.len() && !(#[trigger] event_is_stale(cfg, obs, i)) ==> occurrences(
                spec_stale_ids(cfg, obs),
                obs.events@[i].id,
            ) == 0,
{
    if weekday_of(obs.now.day) == weekday_after(cfg.target_weekday) {
        lemma_stale_ids_occurrences(
            obs.events@,
            cfg.event_name@,
            spec_next_occurrence(obs.now, cfg.target_weekday, cfg.target_hour).day,
        );
    }
}

/// Which reminder flag of the state corresponds to the selected reminder.
pub open spec fn reminder_sent(state: LoopState, eight: bool) -> bool {
    if eight {
        state.eight_hour_sent
    } else {
        state.one_hour_sent
    }
}

/// Whether the selected reminder is due on this tick.
pub open spec fn reminder_due(cfg: ScheduleConfig, state: LoopState, obs: Observation, eight: bool) -> bool {
    if eight {
        eight_hour_due(cfg, state, obs)
    } else {
        one_hour_due(cfg, state, obs)
    }
}

/// How many times the selected reminder fires over a run of consecutive
/// ticks that starts in `state` and observes `ticks`, in order.
pub open spec fn reminder_fire_count(
    cfg: ScheduleConfig,
    state: LoopState,
    ticks: Seq<Observation>,
    eight: bool,
) -> nat
    decreases ticks.len(),
{
    if ticks.len() == 0 {
        0
    } else {
        (if reminder_due(cfg, state, ticks.first(), eight) {
            1nat
        } else {
            0nat
        }) + reminder_fire_count(
            cfg,
            spec_next_state(cfg, state, ticks.first()),
            ticks.drop_first(),
            eight,
        )
    }
}

/// Once a reminder's flag is set, that reminder never fires again for as
/// long as no tick creates a new event (which is what resets the flags).
pub proof fn lemma_sent_flag_blocks_reminder(
    cfg: ScheduleConfig,
    state: LoopState,
    ticks: Seq<Observation>,
    eight: bool,
)
    requires
        forall|i: int| 0 <= i < ticks.len() ==> !creates(cfg, #[trigger] ticks[i]),
        reminder_sent(state, eight),
    ensures
        reminder_fire_count(cfg, state, ticks, eight) == 0,
    decreases ticks.len(),
{
    if ticks.len() > 0 {
        assert(ticks[0] == ticks.first());
        let next = spec_next_state(cfg, state, ticks.first());
        assert(reminder_sent(next, eight));
        assert(forall|i: int|
            0 <= i < ticks.drop_first().len() ==> !creates(
                cfg,
                #[trigger] ticks.drop_first()[i],
            )) by {
            assert(forall|i: int|
                0 <= i < ticks.drop_first().len() ==> ticks.drop_first()[i] == ticks[i + 1]);
        }
        lemma_sent_flag_blocks_reminder(cfg, next, ticks.drop_first(), eight);
    }
}

/// Within one week's cycle — a run of consecutive ticks during which no new
/// event is created — each reminder fires at most once, however many ticks
/// happen while its triggering condition holds.
pub proof fn lemma_reminder_fires_at_most_once(
    cfg: ScheduleConfig,
    state: LoopState,
    ticks: Seq<Observation>,
    eight: bool,
)
    requires
        forall|i: int| 0 <= i < ticks.len() ==> !creates(cfg, #[trigger] ticks[i]),
    ensures
        reminder_fire_count(cfg, state, ticks, eight) <= 1,
    decreases ticks.len(),
{
    if ticks.len() > 0 {
        assert(ticks[0] == ticks.first());
        let next = spec_next_state(cfg, state, ticks.first());
        assert(forall|i: int|
            0 <= i < ticks.drop_first().len() ==> !creates(
                cfg,
                #[trigger] ticks.drop_first()[i],
            )) by {
            assert(forall|i: int|
                0 <= i < ticks.drop_first().len() ==> ticks.drop_first()[i] == ticks[i + 1]);
        }
        if reminder_due(cfg, state, ticks.first(), eight) {
            assert(reminder_sent(next, eight));
            lemma_sent_flag_blocks_reminder(cfg, next, ticks.drop_first(), eight);
        } else {
            lemma_reminder_fires_at_most_once(cfg, next, ticks.drop_first(), eight);
        }
    }
}

} // verus!
