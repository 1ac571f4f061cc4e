use clock_rs::alarm::{current_utc_clock, utc_clock_at, AlarmScheduler, WallClock};
use clock_rs::config::{AlarmConfig, AlarmDay, AlarmTime, Weekday};

fn at(weekday: Weekday, hour: u32, minute: u32, second: u32) -> WallClock {
    WallClock { utc: false, weekday, year: 2024, ordinal: 8, hour, minute, second }
}

fn alarm(days: Vec<AlarmDay>, hour: u32, minute: u32, second: u32) -> AlarmConfig {
    AlarmConfig { days, time: AlarmTime { hour, minute, second } }
}

#[test]
fn new_scheduler_is_quiet() {
    let s = AlarmScheduler::new(vec![alarm(vec![AlarmDay::Monday], 7, 30, 0)], false);
    assert!(!s.is_active());
}

#[test]
fn alarm_rings_at_its_second_only() {
    let mut s = AlarmScheduler::new(vec![alarm(vec![AlarmDay::Monday], 7, 30, 0)], false);
    s.refresh_at(at(Weekday::Mon, 7, 29, 59));
    assert!(!s.is_active());
    s.refresh_at(at(Weekday::Mon, 7, 30, 1));
    assert!(!s.is_active());
    s.refresh_at(at(Weekday::Mon, 7, 30, 0));
    assert!(s.is_active());
}

#[test]
fn alarm_does_not_ring_on_other_days() {
    let mut s = AlarmScheduler::new(
        vec![alarm(vec![AlarmDay::Monday, AlarmDay::Friday], 6, 0, 0)],
        false,
    );
    s.refresh_at(at(Weekday::Tue, 6, 0, 0));
    assert!(!s.is_active());
    s.refresh_at(at(Weekday::Fri, 6, 0, 0));
    assert!(s.is_active());
}

#[test]
fn ringing_alarm_stays_until_dismissed() {
    let mut s = AlarmScheduler::new(vec![alarm(vec![AlarmDay::Sunday], 9, 15, 30)], true);
    s.refresh_at(at(Weekday::Sun, 9, 15, 30));
    assert!(s.is_active());
    s.refresh_at(at(Weekday::Sun, 10, 0, 0));
    assert!(s.is_active());
    s.dismiss();
    assert!(!s.is_active());
}

#[test]
fn dismissed_alarm_does_not_ring_again_in_same_second() {
    let mut s = AlarmScheduler::new(vec![alarm(vec![AlarmDay::Monday], 7, 30, 0)], false);
    s.refresh_at(at(Weekday::Mon, 7, 30, 0));
    assert!(s.is_active());
    s.dismiss();
    s.refresh_at(at(Weekday::Mon, 7, 30, 0));
    assert!(!s.is_active());
}

#[test]
fn same_time_next_day_rings_again() {
    let mut s = AlarmScheduler::new(
        vec![alarm(vec![AlarmDay::Monday, AlarmDay::Tuesday], 7, 30, 0)],
        false,
    );
    s.refresh_at(at(Weekday::Mon, 7, 30, 0));
    s.dismiss();
    let next = WallClock { utc: false, weekday: Weekday::Tue, year: 2024, ordinal: 9, hour: 7, minute: 30, second: 0 };
    s.refresh_at(next);
    assert!(s.is_active());
}

#[test]
fn second_alarm_at_same_second_rings_after_first_is_dismissed() {
    let mut s = AlarmScheduler::new(
        vec![
            alarm(vec![AlarmDay::Monday], 7, 30, 0),
            alarm(vec![AlarmDay::Monday], 7, 30, 0),
        ],
        false,
    );
    s.refresh_at(at(Weekday::Mon, 7, 30, 0));
    assert!(s.is_active());
    s.dismiss();
    s.refresh_at(at(Weekday::Mon, 7, 30, 0));
    assert!(s.is_active());
}

#[test]
fn no_alarms_never_ring() {
    let mut s = AlarmScheduler::new(Vec::new(), false);
    s.refresh_at(at(Weekday::Mon, 0, 0, 0));
    assert!(!s.is_active());
    assert!(!s.refresh());
    assert!(!s.is_active());
}

#[test]
fn reconfigure_keeps_ringing_state() {
    let mut s = AlarmScheduler::new(vec![alarm(vec![AlarmDay::Monday], 7, 30, 0)], false);
    s.refresh_at(at(Weekday::Mon, 7, 30, 0));
    s.reconfigure(Vec::new(), true);
    assert!(s.is_active());
    s.dismiss();
    s.refresh_at(at(Weekday::Mon, 7, 30, 0));
    assert!(!s.is_active());
}

#[test]
fn wall_clock_reading_is_in_range() {
    let now = current_utc_clock().expect("the test machine's clock reads after 1970");
    assert!(now.utc);
    assert!(now.hour < 24 && now.minute < 60 && now.second < 60);
    assert!(now.ordinal >= 1 && now.ordinal <= 366);
    assert!(now.year >= 2000);
}

#[test]
fn utc_reading_matches_system_time() {
    let secs = std::time::SystemTime::now()
        .duration_since(std::time::UNIX_EPOCH)
        .unwrap()
        .as_secs();
    let now = current_utc_clock().unwrap();
    // Seconds of the day in UTC, allowing for the second ticking between the two reads.
    let day_secs = (now.hour * 3600 + now.minute * 60 + now.second) as u64;
    let expected = secs % 86_400;
    assert!(day_secs == expected || day_secs == (expected + 1) % 86_400);
    // 1970-01-01 was a Thursday (3 days after Monday).
    let weekday = ((secs / 86_400 + 3) % 7) as u32;
    let days_from_monday = [
        Weekday::Mon, Weekday::Tue, Weekday::Wed, Weekday::Thu, Weekday::Fri, Weekday::Sat,
        Weekday::Sun,
    ]
    .iter()
    .position(|w| *w == now.weekday)
    .unwrap() as u32;
    assert!(days_from_monday == weekday || expected == 86_399);
}

#[test]
fn refresh_with_clock_keeps_quiet_without_matching_alarm() {
    let mut s = AlarmScheduler::new(vec![alarm(vec![], 7, 30, 0)], true);
    assert!(!s.refresh());
    assert!(!s.is_active());
}

#[test]
fn local_scheduler_asks_for_a_local_reading() {
    let mut s = AlarmScheduler::new(vec![alarm(vec![AlarmDay::Monday], 7, 30, 0)], false);
    assert!(s.refresh());
    assert!(!s.is_active());
    assert!(!s.uses_utc());
    s.refresh_at(at(Weekday::Mon, 7, 30, 0));
    assert!(s.is_active());
    // While it rings, no reading is asked for.
    assert!(!s.refresh());
    let mut empty = AlarmScheduler::new(Vec::new(), false);
    assert!(!empty.refresh());
}

#[test]
fn utc_reading_of_the_epoch() {
    assert_eq!(
        utc_clock_at(0, 0),
        Some(WallClock {
            utc: true,
            weekday: Weekday::Thu,
            year: 1970,
            ordinal: 1,
            hour: 0,
            minute: 0,
            second: 0,
        })
    );
}

#[test]
fn utc_reading_of_a_later_instant() {
    assert_eq!(
        utc_clock_at(1_700_000_000, 500_000_000),
        Some(WallClock {
            utc: true,
            weekday: Weekday::Tue,
            year: 2023,
            ordinal: 318,
            hour: 22,
            minute: 13,
            second: 20,
        })
    );
}

#[test]
fn utc_reading_out_of_range_is_none() {
    assert_eq!(utc_clock_at(u64::MAX, 0), None);
    assert_eq!(utc_clock_at(i64::MAX as u64, 0), None);
}
