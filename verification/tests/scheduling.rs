use session_scheduler::clock::{next_occurrence, one_hour_after, Moment};
use session_scheduler::tick::{tick, LoopState, Observation, RemoteEvent, ScheduleConfig};

// Day numbers congruent to 0 modulo 7 fall on the target weekday used by
// these tests; call that weekday "Monday". Day 7000 is such a Monday.
const MONDAY: u64 = 7000;
const EVENT_NAME: &str = "Weekly Session";

fn config() -> ScheduleConfig {
    ScheduleConfig { event_name: String::from(EVENT_NAME), target_weekday: 0, target_hour: 20 }
}

fn fresh_state() -> LoopState {
    LoopState { eight_hour_sent: false, one_hour_sent: false }
}

fn managed_event(id: u64, start_day: u64) -> RemoteEvent {
    RemoteEvent {
        id,
        guild_id: 900,
        name: String::from(EVENT_NAME),
        start: Moment { day: start_day, hour: 20, minute: 0 },
    }
}

fn at(day: u64, hour: u8) -> Moment {
    Moment { day, hour, minute: 0 }
}

#[test]
fn next_occurrence_from_monday_is_following_monday() {
    // Monday 11:00 with target hour 20: never "later today", always the
    // following Monday at 20:00.
    let r = next_occurrence(&at(MONDAY, 11), 0, 20);
    assert_eq!(r, at(MONDAY + 7, 20));
    assert_eq!(r.minute, 0);
}

#[test]
fn next_occurrence_from_late_monday_is_following_monday() {
    let r = next_occurrence(&at(MONDAY, 23), 0, 20);
    assert_eq!(r.day, MONDAY + 7);
}

#[test]
fn next_occurrence_from_tuesday() {
    let r = next_occurrence(&at(MONDAY + 1, 5), 0, 20);
    assert_eq!(r, at(MONDAY + 7, 20));
}

#[test]
fn next_occurrence_from_sunday() {
    let r = next_occurrence(&at(MONDAY + 6, 5), 0, 20);
    assert_eq!(r, at(MONDAY + 7, 20));
}

#[test]
fn next_occurrence_is_within_a_week_for_every_weekday_and_hour() {
    for offset in 0..7u64 {
        for hour in 0..24u8 {
            let now = at(MONDAY + offset, hour);
            let r = next_occurrence(&now, 0, 20);
            assert!(r.day > now.day);
            assert!(r.day <= now.day + 7);
            assert_eq!(r.day % 7, 0);
            assert_eq!(r.hour, 20);
            assert_eq!(r.minute, 0);
        }
    }
}

#[test]
fn event_lasts_exactly_one_hour() {
    let start = at(MONDAY + 7, 20);
    let end = one_hour_after(&start);
    assert_eq!(end, at(MONDAY + 7, 21));
}

#[test]
fn event_end_rolls_over_midnight() {
    let start = at(MONDAY, 23);
    let end = one_hour_after(&start);
    assert_eq!(end, at(MONDAY + 1, 0));
}

#[test]
fn empty_tick_creates_exactly_one_event() {
    // No managed event at the start of the tick: the creation path runs,
    // with both reminder flags cleared afterwards.
    let plan = tick(&config(), &fresh_state(), &Observation { now: at(MONDAY + 2, 9), events: vec![] });
    let window = plan.create.expect("an event must be created");
    assert_eq!(window.start, at(MONDAY + 7, 20));
    assert_eq!(window.end, at(MONDAY + 7, 21));
    assert!(!plan.next_state.eight_hour_sent);
    assert!(!plan.next_state.one_hour_sent);
    assert!(!plan.send_eight_hour_reminder);
    assert!(!plan.send_one_hour_reminder);
    assert!(plan.stale_event_ids.is_empty());
}

#[test]
fn creation_resets_reminder_flags() {
    let carried = LoopState { eight_hour_sent: true, one_hour_sent: true };
    let plan = tick(&config(), &carried, &Observation { now: at(MONDAY + 3, 9), events: vec![] });
    assert!(plan.create.is_some());
    assert!(!plan.next_state.eight_hour_sent);
    assert!(!plan.next_state.one_hour_sent);
}

#[test]
fn unmanaged_events_do_not_prevent_creation() {
    let other = RemoteEvent {
        id: 5,
        guild_id: 900,
        name: String::from("Another gathering"),
        start: at(MONDAY + 3, 10),
    };
    let plan = tick(&config(), &fresh_state(), &Observation {
        now: at(MONDAY + 2, 9),
        events: vec![other],
    });
    assert!(plan.create.is_some());
}

#[test]
fn no_creation_while_managed_event_exists() {
    let plan = tick(&config(), &fresh_state(), &Observation {
        now: at(MONDAY + 2, 9),
        events: vec![managed_event(1, MONDAY + 7)],
    });
    assert!(plan.create.is_none());
    assert!(plan.stale_event_ids.is_empty());
}

#[test]
fn eight_hour_reminder_fires_at_noon() {
    // Monday 12:00, target hour 20: the gap is exactly eight hours.
    let plan = tick(&config(), &fresh_state(), &Observation {
        now: at(MONDAY, 12),
        events: vec![managed_event(1, MONDAY)],
    });
    assert!(plan.send_eight_hour_reminder);
    assert!(!plan.send_one_hour_reminder);
    assert!(plan.next_state.eight_hour_sent);
    assert!(!plan.next_state.one_hour_sent);
}

#[test]
fn one_hour_reminder_fires_at_nineteen() {
    let plan = tick(&config(), &fresh_state(), &Observation {
        now: at(MONDAY, 19),
        events: vec![managed_event(1, MONDAY)],
    });
    assert!(!plan.send_eight_hour_reminder);
    assert!(plan.send_one_hour_reminder);
    assert!(plan.next_state.one_hour_sent);
}

#[test]
fn no_reminder_fires_at_thirteen() {
    let plan = tick(&config(), &fresh_state(), &Observation {
        now: at(MONDAY, 13),
        events: vec![managed_event(1, MONDAY)],
    });
    assert!(!plan.send_eight_hour_reminder);
    assert!(!plan.send_one_hour_reminder);
    assert_eq!(plan.next_state, fresh_state());
}

#[test]
fn no_reminder_on_another_weekday() {
    let plan = tick(&config(), &fresh_state(), &Observation {
        now: at(MONDAY + 3, 12),
        events: vec![managed_event(1, MONDAY + 7)],
    });
    assert!(!plan.send_eight_hour_reminder);
    assert!(!plan.send_one_hour_reminder);
}

#[test]
fn no_reminder_without_a_managed_event() {
    let plan = tick(&config(), &fresh_state(), &Observation { now: at(MONDAY, 12), events: vec![] });
    assert!(!plan.send_eight_hour_reminder);
    assert!(!plan.send_one_hour_reminder);
}

#[test]
fn rapid_ticks_deliver_each_reminder_once() {
    // Several ticks while the eight-hour condition still holds: only the
    // first delivers; the carried flag blocks the rest.
    let cfg = config();
    let mut state = fresh_state();
    let mut deliveries = 0;
    for _ in 0..5 {
        let plan = tick(&cfg, &state, &Observation {
            now: at(MONDAY, 12),
            events: vec![managed_event(1, MONDAY)],
        });
        if plan.send_eight_hour_reminder {
            deliveries += 1;
        }
        state = plan.next_state;
    }
    assert_eq!(deliveries, 1);
}

#[test]
fn both_reminders_across_one_day() {
    // A full Monday of hourly ticks: the 8h reminder at 12:00 and the 1h
    // reminder at 19:00, each exactly once.
    let cfg = config();
    let mut state = fresh_state();
    let mut eight = 0;
    let mut one = 0;
    for hour in 0..24u8 {
        let plan = tick(&cfg, &state, &Observation {
            now: at(MONDAY, hour),
            events: vec![managed_event(1, MONDAY)],
        });
        if plan.send_eight_hour_reminder {
            eight += 1;
        }
        if plan.send_one_hour_reminder {
            one += 1;
        }
        state = plan.next_state;
    }
    assert_eq!(eight, 1);
    assert_eq!(one, 1);
}

#[test]
fn stale_event_deleted_on_day_after_target() {
    // Tuesday: the managed event from the past Monday starts before the
    // next computed occurrence and is deleted, exactly once.
    let plan = tick(&config(), &fresh_state(), &Observation {
        now: at(MONDAY + 1, 9),
        events: vec![managed_event(42, MONDAY)],
    });
    assert_eq!(plan.stale_event_ids, vec![42]);
    assert!(plan.create.is_none());
}

#[test]
fn fresh_event_never_deleted() {
    // The managed event already sits on the next occurrence: kept.
    let plan = tick(&config(), &fresh_state(), &Observation {
        now: at(MONDAY + 1, 9),
        events: vec![managed_event(42, MONDAY + 7)],
    });
    assert!(plan.stale_event_ids.is_empty());
}

#[test]
fn stale_event_kept_on_other_days() {
    // Wednesday is not the cleanup day: even a stale event stays.
    let plan = tick(&config(), &fresh_state(), &Observation {
        now: at(MONDAY + 2, 9),
        events: vec![managed_event(42, MONDAY)],
    });
    assert!(plan.stale_event_ids.is_empty());
}

#[test]
fn every_stale_event_deleted() {
    // More than one managed event is a policy violation handled
    // defensively: each stale one is listed, in observation order.
    let plan = tick(&config(), &fresh_state(), &Observation {
        now: at(MONDAY + 1, 9),
        events: vec![managed_event(7, MONDAY), managed_event(8, MONDAY - 7), managed_event(9, MONDAY + 7)],
    });
    assert_eq!(plan.stale_event_ids, vec![7, 8]);
}
