use orion_agent_core::cron::{
    after_run, compute_next_run, parse_u64, resolve_session, run_record, schedule_from_db,
    schedule_to_db, try_compute_next_run, AfterRun, OrionError, RunStatus, Schedule,
    SessionDecision, Timestamp, DEFAULT_INTERVAL_MS,
};

/// 2023-11-14T22:13:20Z.
const NOW: Timestamp = Timestamp { secs: 1_700_000_000, nanos: 0 };

#[test]
fn test_compute_next_run_interval() {
    let schedule = Schedule::Interval { every_ms: 300000 };
    let next = compute_next_run(&schedule, None, NOW).unwrap();
    assert!(next.is_some());
}

#[test]
fn test_compute_next_run_cron() {
    let schedule = Schedule::Cron { expr: "0 0 * * * *".to_string() };
    let next = compute_next_run(&schedule, None, NOW).unwrap();
    assert!(next.is_some());
}

#[test]
fn interval_runs_after_last_run_or_now() {
    let schedule = Schedule::Interval { every_ms: 300000 };
    assert_eq!(compute_next_run(&schedule, None, NOW).unwrap().unwrap(), "2023-11-14T22:18:20+00:00");
    let last = Timestamp { secs: 0, nanos: 0 };
    assert_eq!(compute_next_run(&schedule, Some(last), NOW).unwrap().unwrap(), "1970-01-01T00:05:00+00:00");
}

#[test]
fn interval_out_of_range_has_no_next_run() {
    let schedule = Schedule::Interval { every_ms: u64::MAX / 2 };
    assert!(try_compute_next_run(&schedule, None, NOW).is_none());
}

#[test]
fn cron_runs_at_next_firing() {
    let schedule = Schedule::Cron { expr: "0 0 * * * *".to_string() };
    assert_eq!(compute_next_run(&schedule, None, NOW).unwrap().unwrap(), "2023-11-14T23:00:00+00:00");
}

#[test]
fn bad_cron_expression_is_an_error() {
    let schedule = Schedule::Cron { expr: "not a cron".to_string() };
    match compute_next_run(&schedule, None, NOW) {
        Err(OrionError::Cron(m)) => assert!(m.starts_with("Invalid cron expression 'not a cron': ")),
        r => panic!("unexpected {:?}", r),
    }
}

#[test]
fn one_shot_runs_once_in_the_future() {
    let future = Schedule::OneShot { at: "2030-01-01T00:00:00+00:00".to_string() };
    assert_eq!(compute_next_run(&future, None, NOW).unwrap(), Some("2030-01-01T00:00:00+00:00".to_string()));
    assert_eq!(compute_next_run(&future, Some(NOW), NOW).unwrap(), None);
    let past = Schedule::OneShot { at: "2020-01-01T00:00:00Z".to_string() };
    assert_eq!(compute_next_run(&past, None, NOW).unwrap(), None);
    let bad = Schedule::OneShot { at: "tomorrow".to_string() };
    match compute_next_run(&bad, None, NOW) {
        Err(OrionError::Cron(m)) => assert_eq!(m, "Invalid timestamp: tomorrow"),
        r => panic!("unexpected {:?}", r),
    }
}

#[test]
fn schedules_round_trip_through_rows() {
    let (t, v) = schedule_to_db(&Schedule::Interval { every_ms: 300000 });
    assert_eq!((t, v.as_str()), ("interval", "300000"));
    assert!(matches!(schedule_from_db(t, &v), Schedule::Interval { every_ms: 300000 }));
    let (t, v) = schedule_to_db(&Schedule::Cron { expr: "0 * * * * *".into() });
    assert_eq!(t, "cron");
    assert!(matches!(schedule_from_db(t, &v), Schedule::Cron { expr } if expr == "0 * * * * *"));
    let (t, v) = schedule_to_db(&Schedule::OneShot { at: "2030-01-01T00:00:00Z".into() });
    assert_eq!(t, "one_shot");
    assert!(matches!(schedule_from_db(t, &v), Schedule::OneShot { at } if at == "2030-01-01T00:00:00Z"));
}

#[test]
fn bad_rows_fall_back_to_default_interval() {
    assert!(matches!(schedule_from_db("interval", "soon"), Schedule::Interval { every_ms } if every_ms == DEFAULT_INTERVAL_MS));
    assert!(matches!(schedule_from_db("weekly", "x"), Schedule::Interval { every_ms } if every_ms == DEFAULT_INTERVAL_MS));
}

#[test]
fn unsigned_numbers_parse() {
    assert_eq!(parse_u64("0"), Some(0));
    assert_eq!(parse_u64("18446744073709551615"), Some(u64::MAX));
    assert_eq!(parse_u64("18446744073709551616"), None);
    assert_eq!(parse_u64(""), None);
    assert_eq!(parse_u64("+1"), Some(1));
    assert_eq!(parse_u64("1a"), None);
}

#[test]
fn run_status_names() {
    for s in [RunStatus::Running, RunStatus::Success, RunStatus::Failed] {
        assert_eq!(RunStatus::parse(s.as_str()), Some(s));
    }
    assert_eq!(RunStatus::parse("done"), None);
}

#[test]
fn run_outcomes_are_recorded() {
    assert_eq!(run_record(Ok("All good".into())), (RunStatus::Success, "All good".to_string()));
    assert_eq!(run_record(Err("boom".into())), (RunStatus::Failed, "boom".to_string()));
}

#[test]
fn jobs_after_a_run() {
    assert!(matches!(after_run(true, Ok(Some("t".into()))), AfterRun::Remove));
    assert!(matches!(after_run(false, Ok(Some("t".into()))), AfterRun::Reschedule { next } if next == "t"));
    assert!(matches!(after_run(false, Ok(None)), AfterRun::Disable));
    assert!(matches!(after_run(false, Err(OrionError::Cron("x".into()))), AfterRun::Disable));
}

#[test]
fn test_resolve_session_new_when_empty() {
    assert!(matches!(resolve_session(None, NOW), Ok(SessionDecision::New)));
}

#[test]
fn test_resolve_session_continue_recent() {
    let latest = Some(("s1".to_string(), "2023-11-14T22:00:00+00:00".to_string()));
    match resolve_session(latest, NOW) {
        Ok(SessionDecision::Continue(id)) => assert_eq!(id, "s1"),
        r => panic!("unexpected {:?}", r),
    }
}

#[test]
fn old_sessions_are_not_continued() {
    let latest = Some(("s1".to_string(), "2023-11-14T21:43:20+00:00".to_string()));
    assert!(matches!(resolve_session(latest, NOW), Ok(SessionDecision::New)));
    let bad = Some(("s1".to_string(), "yesterday".to_string()));
    match resolve_session(bad, NOW) {
        Err(OrionError::Session(m)) => assert!(m.starts_with("Bad timestamp: ")),
        r => panic!("unexpected {:?}", r),
    }
}

#[test]
fn schedules_read_back_from_their_rows() {
    let schedules = vec![
        Schedule::OneShot { at: "2030-01-01T00:00:00Z".to_string() },
        Schedule::Interval { every_ms: 60000 },
        Schedule::Interval { every_ms: u64::MAX },
        Schedule::Cron { expr: "0 0 * * * *".to_string() },
    ];
    for s in schedules {
        let (t, v) = schedule_to_db(&s);
        let back = schedule_from_db(t, &v);
        assert_eq!(format!("{:?}", back), format!("{:?}", s));
    }
    assert_eq!(format!("{:?}", schedule_from_db("weekly", "x")), format!("{:?}", Schedule::Interval { every_ms: 60000 }));
}

#[test]
fn cron_search_past_the_last_instant_is_refused() {
    let schedule = Schedule::Cron { expr: "0 0 * * * *".to_string() };
    let end = Timestamp { secs: 8_210_266_876_799, nanos: 0 };
    assert!(try_compute_next_run(&schedule, None, end).is_none());
    assert!(try_compute_next_run(&schedule, None, NOW).is_some());
}
