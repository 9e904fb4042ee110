//! Bot commands and the choice and order of recorded messages.

use alert_filter::commands::{head_end, next_offset, BotCommand};
use alert_filter::dump::{
    midnight_found, offset_seconds, start_of_today_utc_from_offset, DumpError,
};
use alert_filter::replay::{
    is_blank, is_no_later, parse_positive, sort_events, DumpEvent, LineWindow, RangeError,
};

fn event(timestamp: i64, channel_id: i64, text: &str) -> DumpEvent {
    DumpEvent {
        timestamp,
        channel_id,
        channel_title: format!("ch{channel_id}"),
        text: text.to_string(),
    }
}

fn texts(events: &[DumpEvent]) -> Vec<String> {
    events.iter().map(|e| e.text.clone()).collect()
}

#[test]
fn commands_are_read_up_to_the_bot_name() {
    assert_eq!(BotCommand::parse("/start"), BotCommand::Start);
    assert_eq!(BotCommand::parse("  /start  "), BotCommand::Start);
    assert_eq!(BotCommand::parse("/start@AlertBot"), BotCommand::Start);
    assert_eq!(BotCommand::parse("/start_receive"), BotCommand::Subscribe);
    assert_eq!(BotCommand::parse("/start_receive @AlertBot"), BotCommand::Subscribe);
    assert_eq!(BotCommand::parse("\n/stop_receive@AlertBot@x\n"), BotCommand::Unsubscribe);
    assert_eq!(BotCommand::parse("/stop"), BotCommand::Ignored);
    assert_eq!(BotCommand::parse("/START"), BotCommand::Ignored);
    assert_eq!(BotCommand::parse("/start now"), BotCommand::Ignored);
    assert_eq!(BotCommand::parse("@/start"), BotCommand::Ignored);
    assert_eq!(BotCommand::parse(""), BotCommand::Ignored);
    assert_eq!(BotCommand::parse("hello"), BotCommand::Ignored);
}

#[test]
fn head_ends_at_the_first_separator() {
    let s: Vec<char> = "ab@c@d".chars().collect();
    assert_eq!(head_end(&s, '@'), 2);
    assert_eq!(head_end(&s, 'x'), 6);
    assert_eq!(head_end(&s, 'a'), 0);
    assert_eq!(head_end(&[], '@'), 0);
}

#[test]
fn offset_follows_the_update() {
    assert_eq!(next_offset(0), 1);
    assert_eq!(next_offset(41), 42);
    assert_eq!(next_offset(-1), 0);
    assert_eq!(next_offset(i64::MAX), i64::MAX);
}

#[test]
fn positive_numbers_only() {
    assert_eq!(parse_positive(Some("3")), Some(3));
    assert_eq!(parse_positive(Some("0")), None);
    assert_eq!(parse_positive(Some("x")), None);
    assert_eq!(parse_positive(Some("")), None);
    assert_eq!(parse_positive(None), None);
}

#[test]
fn blank_lines() {
    assert!(is_blank(""));
    assert!(is_blank(" \t\r"));
    assert!(!is_blank(" {} "));
}

#[test]
fn line_window_from_settings() {
    let all = LineWindow::from_values(None, None, None).expect("valid");
    assert!(all.selects(1));
    assert!(all.selects(u64::MAX));
    assert!(!all.is_full(u64::MAX));

    let some = LineWindow::from_values(Some("3"), Some("5"), Some("2")).expect("valid");
    assert_eq!(some.from_line, Some(3));
    assert_eq!(some.to_line, Some(5));
    assert_eq!(some.limit, Some(2));
    assert!(!some.selects(2));
    assert!(some.selects(3));
    assert!(some.selects(5));
    assert!(!some.selects(6));
    assert!(!some.is_full(1));
    assert!(some.is_full(2));
    assert!(some.is_full(3));

    let one = LineWindow::from_values(Some("4"), Some("4"), None).expect("valid");
    assert!(one.selects(4));
    assert!(!one.selects(3));

    let bad = LineWindow::from_values(Some("6"), Some("5"), None);
    assert_eq!(bad.err(), Some(RangeError::FromBehindTo));

    // What writes no positive number counts as not given.
    let open = LineWindow::from_values(Some("0"), Some("x"), Some("-1")).expect("valid");
    assert_eq!(open.from_line, None);
    assert_eq!(open.to_line, None);
    assert_eq!(open.limit, None);
    let half = LineWindow::from_values(Some("9"), Some("0"), None).expect("valid");
    assert!(half.selects(9));
    assert!(!half.selects(8));
}

#[test]
fn offsets_in_seconds() {
    assert_eq!(offset_seconds(0), Some(0));
    assert_eq!(offset_seconds(120), Some(7200));
    assert_eq!(offset_seconds(-90), Some(-5400));
    assert_eq!(offset_seconds(i32::MAX / 60), Some((i32::MAX / 60) * 60));
    assert_eq!(offset_seconds(i32::MAX / 60 + 1), None);
    assert_eq!(offset_seconds(i32::MIN / 60), Some((i32::MIN / 60) * 60));
    assert_eq!(offset_seconds(i32::MIN / 60 - 1), None);
    assert_eq!(offset_seconds(i32::MAX), None);
    for minutes in [-1000, -1, 0, 1, 840, 35791394, 35791395, -35791394, -35791395] {
        assert_eq!(offset_seconds(minutes), minutes.checked_mul(60), "{minutes}");
    }
}

#[test]
fn events_are_ordered_by_time_then_source() {
    let mut events = vec![
        event(30, 1, "e"),
        event(10, 2, "b"),
        event(20, 1, "d"),
        event(10, 1, "a"),
        event(10, 2, "c"),
    ];
    sort_events(&mut events);
    assert_eq!(texts(&events), vec!["a", "b", "c", "d", "e"]);
    assert!(events.windows(2).all(|w| is_no_later(&w[0], &w[1])));
}

#[test]
fn ordering_is_stable_and_agrees_with_the_standard_sort() {
    let mut events = Vec::new();
    let mut seed: u64 = 7;
    for i in 0..200 {
        seed = seed.wrapping_mul(6364136223846793005).wrapping_add(1442695040888963407);
        let timestamp = ((seed >> 33) % 7) as i64 - 3;
        let channel_id = ((seed >> 20) % 3) as i64 - 1;
        events.push(event(timestamp, channel_id, &i.to_string()));
    }
    let mut expected = events.clone();
    expected.sort_by_key(|e| (e.timestamp, e.channel_id));
    sort_events(&mut events);
    assert_eq!(texts(&events), texts(&expected));
}

#[test]
fn ordering_of_few_events() {
    let mut none: Vec<DumpEvent> = Vec::new();
    sort_events(&mut none);
    assert!(none.is_empty());
    let mut one = vec![event(1, 1, "x")];
    sort_events(&mut one);
    assert_eq!(texts(&one), vec!["x"]);
    let mut sorted = vec![event(1, 1, "x"), event(1, 1, "y"), event(2, 0, "z")];
    sort_events(&mut sorted);
    assert_eq!(texts(&sorted), vec!["x", "y", "z"]);
    let mut reversed = vec![event(i64::MAX, 0, "b"), event(i64::MIN, i64::MAX, "a")];
    sort_events(&mut reversed);
    assert_eq!(texts(&reversed), vec!["a", "b"]);
}

#[test]
fn start_of_the_local_day() {
    // 2023-11-14 22:13:20 UTC.
    let now = 1_700_000_000;
    // In UTC the day began at 2023-11-14 00:00:00.
    assert_eq!(start_of_today_utc_from_offset(now, 0), Ok(1_699_920_000));
    // Two hours east it is already the 15th, which began at 22:00 UTC.
    assert_eq!(start_of_today_utc_from_offset(now, 120), Ok(1_699_999_200));
    // Five hours west it is still the 14th, which began at 05:00 UTC.
    assert_eq!(start_of_today_utc_from_offset(now, -300), Ok(1_699_938_000));
    assert_eq!(start_of_today_utc_from_offset(0, 0), Ok(0));
    assert_eq!(start_of_today_utc_from_offset(-1, 0), Ok(-86_400));
    assert_eq!(start_of_today_utc_from_offset(86_399, 1), Ok(86_340));
}

#[test]
fn start_of_the_day_refuses_bad_offsets_and_times() {
    assert_eq!(
        start_of_today_utc_from_offset(0, i32::MAX),
        Err(DumpError::OffsetTooLarge)
    );
    assert_eq!(
        start_of_today_utc_from_offset(0, i32::MIN),
        Err(DumpError::OffsetTooLarge)
    );
    assert_eq!(start_of_today_utc_from_offset(0, 1440), Err(DumpError::InvalidOffset));
    assert_eq!(start_of_today_utc_from_offset(0, -1440), Err(DumpError::InvalidOffset));
    assert!(start_of_today_utc_from_offset(0, 1439).is_ok());
    assert!(start_of_today_utc_from_offset(0, -1439).is_ok());
    assert_eq!(
        start_of_today_utc_from_offset(8_000_000_000_001, 0),
        Err(DumpError::NoLocalMidnight)
    );
    assert_eq!(
        start_of_today_utc_from_offset(i64::MIN, 0),
        Err(DumpError::NoLocalMidnight)
    );
    assert!(start_of_today_utc_from_offset(8_000_000_000_000, 1439).is_ok());
    assert!(start_of_today_utc_from_offset(-8_000_000_000_000, -1439).is_ok());
    assert_eq!(midnight_found(Some(5)), Ok(5));
    assert_eq!(midnight_found(None), Err(DumpError::NoLocalMidnight));
}

#[test]
fn start_of_the_day_counts_days_downwards() {
    let times = [
        -8_000_000_000_000i64,
        -86_401,
        -86_400,
        -86_399,
        -1,
        0,
        1,
        86_399,
        86_400,
        1_700_000_000,
        8_000_000_000_000,
    ];
    for now in times {
        for minutes in [-1439, -300, -1, 0, 1, 120, 345, 1439] {
            let secs = minutes as i64 * 60;
            let expected = (now + secs).div_euclid(86_400) * 86_400 - secs;
            let start = start_of_today_utc_from_offset(now, minutes);
            assert_eq!(start, Ok(expected), "{now} {minutes}");
            assert!(expected <= now && now < expected + 86_400);
        }
    }
}
