use enchanted_beans::dispatch::{cancel_waiter, finish_put, handle_line, serve_waiters, Action};
use enchanted_beans::framer::{BodyRead, LineReader};
use enchanted_beans::protocol::BeanstalkResponse;
use enchanted_beans::serialisable::BeanstalkSerialisable;
use enchanted_beans::store::{JobState, Session, Store};

fn put(store: &mut Store, pri: u32, body: &[u8], now: u64) -> u64 {
    store.put(0, pri, 0, 60, body.to_vec(), now).unwrap()
}

/// Runs one line and returns the wire form of its response.
fn run(store: &mut Store, session: &mut Session, line: &[u8], now: u64) -> Vec<u8> {
    match handle_line(store, session, line, now, 65535) {
        Action::Respond(r) => r.serialise_beanstalk(),
        Action::Close => b"<close>".to_vec(),
        Action::Wait { .. } => b"<wait>".to_vec(),
        Action::ReadBody { .. } => b"<body>".to_vec(),
        _ => b"<payload>".to_vec(),
    }
}

#[test]
fn put_then_peek_returns_the_body() {
    let mut store = Store::new();
    let mut session = Session::new(1);
    let id = put(&mut store, 10, b"a\r\nbody\x00\xff", 0);
    let j = store.peek(id).unwrap();
    assert_eq!(j.data, b"a\r\nbody\x00\xff".to_vec());
    assert_eq!(
        run(&mut store, &mut session, format!("peek {id}").as_bytes(), 0),
        b"FOUND 1 9\r\na\r\nbody\x00\xff\r\n".to_vec()
    );
    assert_eq!(run(&mut store, &mut session, b"peek 99", 0), b"NOT_FOUND\r\n".to_vec());
}

#[test]
fn put_through_the_framer() {
    let mut store = Store::new();
    let mut session = Session::new(1);
    let mut lr = LineReader::new();
    lr.fill(b"put 5 0 10 3\r\nabc\r\n");
    let line = lr.read_line().unwrap();
    match handle_line(&mut store, &mut session, &line, 0, 65535) {
        Action::ReadBody { pri, delay, ttr, n_bytes } => {
            assert_eq!((pri, delay, ttr, n_bytes), (5, 0, 10, 3));
            let body = lr.read_body(n_bytes as usize);
            let r = finish_put(&mut store, &session, pri, delay, ttr, body, 0);
            assert_eq!(r.serialise_beanstalk(), b"INSERTED 1\r\n".to_vec());
        },
        _ => panic!("expected a body to read"),
    }
    assert_eq!(store.peek(1).unwrap().data, b"abc".to_vec());
    let r = finish_put(&mut store, &session, 0, 0, 1, BodyRead::ExpectedCrlf, 0);
    assert_eq!(r.serialise_beanstalk(), b"EXPECTED_CRLF\r\n".to_vec());
}

#[test]
fn job_too_big() {
    let mut store = Store::new();
    let mut session = Session::new(1);
    match handle_line(&mut store, &mut session, b"put 0 0 1 11", 0, 10) {
        Action::Respond(r) => assert_eq!(r.serialise_beanstalk(), b"JOB_TOO_BIG\r\n".to_vec()),
        _ => panic!("expected JOB_TOO_BIG"),
    }
}

#[test]
fn reserve_by_priority_then_age() {
    let mut store = Store::new();
    let session = Session::new(1);
    let a = put(&mut store, 50, b"a", 0);
    let b = put(&mut store, 10, b"b", 0);
    let c = put(&mut store, 10, b"c", 0);
    let _d = put(&mut store, 90, b"d", 0);
    let mut order = Vec::new();
    for _ in 0..3 {
        let i = store.reserve(&session, 0).unwrap();
        order.push(store.jobs[i].id);
    }
    assert_eq!(order, vec![b, c, a]);
}

#[test]
fn touch_of_a_job_not_held_is_not_found() {
    let mut store = Store::new();
    let mut s1 = Session::new(1);
    let mut s2 = Session::new(2);
    let id = put(&mut store, 0, b"x", 0);
    let line = format!("touch {id}");
    for _ in 0..3 {
        assert_eq!(run(&mut store, &mut s2, line.as_bytes(), 0), b"NOT_FOUND\r\n".to_vec());
    }
    assert_eq!(
        run(&mut store, &mut s1, b"reserve", 0),
        format!("RESERVED {id} 1\r\nx\r\n").into_bytes()
    );
    for _ in 0..3 {
        assert_eq!(run(&mut store, &mut s2, line.as_bytes(), 0), b"NOT_FOUND\r\n".to_vec());
    }
    assert_eq!(run(&mut store, &mut s1, line.as_bytes(), 0), b"TOUCHED\r\n".to_vec());
}

#[test]
fn ttr_reclaim() {
    let mut store = Store::new();
    let mut s1 = Session::new(1);
    let mut s2 = Session::new(2);
    let id = store.put(0, 0, 0, 1, b"job".to_vec(), 100).unwrap();
    assert_eq!(
        run(&mut store, &mut s1, b"reserve", 100),
        format!("RESERVED {id} 3\r\njob\r\n").into_bytes()
    );
    assert_eq!(run(&mut store, &mut s2, b"reserve-with-timeout 5", 100), b"<wait>".to_vec());
    assert!(serve_waiters(&mut store, 100).is_empty());
    let grants = serve_waiters(&mut store, 101);
    assert_eq!(grants.len(), 1);
    assert_eq!(grants[0].0, 2);
    assert_eq!(
        grants[0].1.serialise_beanstalk(),
        format!("RESERVED {id} 3\r\njob\r\n").into_bytes()
    );
    assert!(store.waiters.is_empty());
    let j = store.peek(id).unwrap();
    assert_eq!(j.meta.timeouts, 1);
    assert_eq!(j.meta.reserves, 2);
    assert_eq!(j.meta.state, JobState::Reserved { owner: 2, deadline: 102 });
}

#[test]
fn waiters_are_served_in_order_of_arrival() {
    let mut store = Store::new();
    let mut s1 = Session::new(1);
    let mut s2 = Session::new(2);
    assert_eq!(run(&mut store, &mut s1, b"reserve", 0), b"<wait>".to_vec());
    assert_eq!(run(&mut store, &mut s2, b"reserve", 0), b"<wait>".to_vec());
    let a = put(&mut store, 0, b"a", 0);
    let grants = serve_waiters(&mut store, 0);
    assert_eq!(grants.len(), 1);
    assert_eq!(grants[0].0, 1);
    assert_eq!(grants[0].1.serialise_beanstalk(), format!("RESERVED {a} 1\r\na\r\n").into_bytes());
    assert_eq!(store.waiters.len(), 1);
    let b = put(&mut store, 0, b"b", 0);
    let grants = serve_waiters(&mut store, 0);
    assert_eq!(grants.len(), 1);
    assert_eq!(grants[0].0, 2);
    assert_eq!(grants[0].1.serialise_beanstalk(), format!("RESERVED {b} 1\r\nb\r\n").into_bytes());
    assert!(store.waiters.is_empty());
}

#[test]
fn timed_waiter_times_out_and_cancelled_waiter_leaves() {
    let mut store = Store::new();
    let mut s1 = Session::new(1);
    let mut s2 = Session::new(2);
    assert_eq!(run(&mut store, &mut s1, b"reserve-with-timeout 3", 10), b"<wait>".to_vec());
    assert_eq!(run(&mut store, &mut s2, b"reserve", 10), b"<wait>".to_vec());
    assert!(serve_waiters(&mut store, 12).is_empty());
    let grants = serve_waiters(&mut store, 13);
    assert_eq!(grants.len(), 1);
    assert_eq!(grants[0].0, 1);
    assert_eq!(grants[0].1.serialise_beanstalk(), b"TIMED_OUT\r\n".to_vec());
    cancel_waiter(&mut store, 2);
    assert!(store.waiters.is_empty());
    put(&mut store, 0, b"x", 13);
    assert!(serve_waiters(&mut store, 13).is_empty());
}

#[test]
fn pipelined_use_and_watch() {
    let mut store = Store::new();
    let mut session = Session::new(1);
    let mut lr = LineReader::new();
    lr.fill(b"use a\r\nwatch b\r\n");
    let mut out = Vec::new();
    while let Some(line) = lr.read_line() {
        out.extend(run(&mut store, &mut session, &line, 0));
    }
    assert_eq!(out, b"USING a\r\nWATCHING 2\r\n".to_vec());
}

#[test]
fn kick_buried_before_delayed() {
    let mut store = Store::new();
    let mut session = Session::new(1);
    let a = put(&mut store, 1, b"a", 0);
    let b = put(&mut store, 2, b"b", 0);
    let c = store.put(0, 3, 100, 60, b"c".to_vec(), 0).unwrap();
    for id in [a, b] {
        assert!(store.reserve_job(1, id, 0).is_some());
        assert!(store.bury(1, id, 5));
    }
    assert_eq!(run(&mut store, &mut session, b"kick 5", 0), b"KICKED 2\r\n".to_vec());
    assert_eq!(store.peek(a).unwrap().meta.state, JobState::Ready);
    assert_eq!(store.peek(b).unwrap().meta.kicks, 1);
    assert!(matches!(store.peek(c).unwrap().meta.state, JobState::Delayed { .. }));
    assert_eq!(run(&mut store, &mut session, b"kick 5", 0), b"KICKED 1\r\n".to_vec());
    assert_eq!(store.peek(c).unwrap().meta.state, JobState::Ready);
    assert_eq!(run(&mut store, &mut session, b"kick 5", 0), b"KICKED 0\r\n".to_vec());
}

#[test]
fn kick_respects_its_bound_oldest_buried_first() {
    let mut store = Store::new();
    let a = put(&mut store, 1, b"a", 0);
    let b = put(&mut store, 2, b"b", 0);
    assert!(store.reserve_job(1, b, 0).is_some());
    assert!(store.bury(1, b, 5));
    assert!(store.reserve_job(1, a, 0).is_some());
    assert!(store.bury(1, a, 5));
    assert_eq!(store.kick(0, 1), 1);
    assert_eq!(store.peek(b).unwrap().meta.state, JobState::Ready);
    assert_eq!(store.peek(a).unwrap().meta.state, JobState::Buried);
}

#[test]
fn ignore_of_the_only_tube() {
    let mut store = Store::new();
    let mut session = Session::new(1);
    assert_eq!(run(&mut store, &mut session, b"ignore default", 0), b"NOT_IGNORED\r\n".to_vec());
    assert_eq!(session.watched, vec![0]);
    assert_eq!(run(&mut store, &mut session, b"watch other", 0), b"WATCHING 2\r\n".to_vec());
    assert_eq!(run(&mut store, &mut session, b"ignore default", 0), b"WATCHING 1\r\n".to_vec());
    assert_eq!(run(&mut store, &mut session, b"ignore other", 0), b"NOT_IGNORED\r\n".to_vec());
    assert_eq!(session.watched.len(), 1);
    assert_eq!(run(&mut store, &mut session, b"ignore nosuch", 0), b"WATCHING 1\r\n".to_vec());
}

#[test]
fn release_delete_and_delays() {
    let mut store = Store::new();
    let mut s1 = Session::new(1);
    let mut s2 = Session::new(2);
    let id = put(&mut store, 0, b"x", 0);
    assert_eq!(run(&mut store, &mut s1, b"reserve", 0), b"RESERVED 1 1\r\nx\r\n".to_vec());
    assert_eq!(run(&mut store, &mut s2, b"release 1 0 0", 0), b"NOT_FOUND\r\n".to_vec());
    assert_eq!(run(&mut store, &mut s2, b"delete 1", 0), b"NOT_FOUND\r\n".to_vec());
    assert_eq!(run(&mut store, &mut s1, b"release 1 7 10", 0), b"RELEASED\r\n".to_vec());
    assert_eq!(store.peek(id).unwrap().meta.state, JobState::Delayed { until: 10 });
    assert_eq!(run(&mut store, &mut s2, b"reserve-with-timeout 0", 5), b"TIMED_OUT\r\n".to_vec());
    assert_eq!(run(&mut store, &mut s2, b"peek-delayed", 5), b"FOUND 1 1\r\nx\r\n".to_vec());
    assert_eq!(run(&mut store, &mut s2, b"peek-ready", 10), b"FOUND 1 1\r\nx\r\n".to_vec());
    assert_eq!(run(&mut store, &mut s2, b"delete 1", 10), b"DELETED\r\n".to_vec());
    assert_eq!(run(&mut store, &mut s2, b"delete 1", 10), b"NOT_FOUND\r\n".to_vec());
}

#[test]
fn paused_tube_is_skipped() {
    let mut store = Store::new();
    let mut session = Session::new(1);
    put(&mut store, 0, b"x", 0);
    assert_eq!(run(&mut store, &mut session, b"pause-tube default 10", 0), b"PAUSED\r\n".to_vec());
    assert_eq!(run(&mut store, &mut session, b"pause-tube nosuch 10", 0), b"NOT_FOUND\r\n".to_vec());
    assert_eq!(run(&mut store, &mut session, b"reserve", 5), b"<wait>".to_vec());
    assert_eq!(run(&mut store, &mut session, b"peek 1", 5), b"FOUND 1 1\r\nx\r\n".to_vec());
    assert_eq!(run(&mut store, &mut session, b"reserve", 10), b"RESERVED 1 1\r\nx\r\n".to_vec());
}

#[test]
fn errors_and_quit() {
    let mut store = Store::new();
    let mut session = Session::new(1);
    assert_eq!(run(&mut store, &mut session, b"frobnicate", 0), b"UNKNOWN_COMMAND\r\n".to_vec());
    assert_eq!(run(&mut store, &mut session, b"delete x", 0), b"BAD_FORMAT\r\n".to_vec());
    assert_eq!(run(&mut store, &mut session, b"kick-job 9", 0), b"NOT_FOUND\r\n".to_vec());
    assert_eq!(run(&mut store, &mut session, b"list-tube-used", 0), b"USING default\r\n".to_vec());
    assert_eq!(run(&mut store, &mut session, b"quit", 0), b"<close>".to_vec());
}

#[test]
fn tube_statistics() {
    let mut store = Store::new();
    let mut session = Session::new(1);
    put(&mut store, 5, b"a", 0);
    put(&mut store, 2000, b"b", 0);
    store.put(0, 1, 30, 60, b"c".to_vec(), 0).unwrap();
    match handle_line(&mut store, &mut session, b"stats-tube default", 0, 65535) {
        Action::SendTubeStats(s) => {
            assert_eq!(s.name, b"default".to_vec());
            assert_eq!(s.current_jobs_ready, 2);
            assert_eq!(s.current_jobs_urgent, 1);
            assert_eq!(s.current_jobs_delayed, 1);
            assert_eq!(s.total_jobs, 3);
        },
        _ => panic!("expected tube statistics"),
    }
    match handle_line(&mut store, &mut session, b"stats-job 3", 10, 65535) {
        Action::SendJobStats(s) => {
            assert_eq!(s.state, JobState::Delayed { until: 30 });
            assert_eq!(s.age, 10);
            assert_eq!(s.time_left, 20);
            assert_eq!(s.delay, 30);
        },
        _ => panic!("expected job statistics"),
    }
}

#[test]
fn deadline_soon_warns_the_holder() {
    let mut store = Store::new();
    let mut s1 = Session::new(1);
    let id = store.put(0, 0, 0, 5, b"x".to_vec(), 0).unwrap();
    assert_eq!(run(&mut store, &mut s1, b"reserve", 0), format!("RESERVED {id} 1\r\nx\r\n").into_bytes());
    assert_eq!(run(&mut store, &mut s1, b"reserve-with-timeout 10", 3), b"<wait>".to_vec());
    assert!(serve_waiters(&mut store, 3).is_empty());
    let grants = serve_waiters(&mut store, 4);
    assert_eq!(grants.len(), 1);
    assert_eq!(grants[0].1.serialise_beanstalk(), b"DEADLINE_SOON\r\n".to_vec());
    assert_eq!(run(&mut store, &mut s1, b"reserve", 4), b"DEADLINE_SOON\r\n".to_vec());
    assert_eq!(run(&mut store, &mut s1, b"touch 1", 4), b"TOUCHED\r\n".to_vec());
    assert_eq!(run(&mut store, &mut s1, b"reserve-with-timeout 0", 4), b"TIMED_OUT\r\n".to_vec());
}

#[test]
fn overlong_line_is_bad_format() {
    let mut store = Store::new();
    let mut session = Session::new(1);
    let name_218 = "a".repeat(218);
    let ok_line = format!("use {name_218}");
    assert_eq!(ok_line.len(), 222);
    assert_eq!(
        run(&mut store, &mut session, ok_line.as_bytes(), 0),
        b"BAD_FORMAT\r\n".to_vec()
    );
    let name_200 = "b".repeat(200);
    assert_eq!(
        run(&mut store, &mut session, format!("use {name_200}").as_bytes(), 0),
        format!("USING {name_200}\r\n").into_bytes()
    );
    let long = format!("use {}", "c".repeat(219));
    assert_eq!(long.len(), 223);
    assert_eq!(run(&mut store, &mut session, long.as_bytes(), 0), b"BAD_FORMAT\r\n".to_vec());
}

#[test]
fn server_statistics_count_commands() {
    let mut store = Store::new();
    let mut session = Session::new(1);
    run(&mut store, &mut session, b"use a", 0);
    run(&mut store, &mut session, b"use b", 0);
    run(&mut store, &mut session, b"peek 1", 0);
    run(&mut store, &mut session, b"bogus", 0);
    run(&mut store, &mut session, b"reserve", 0);
    match handle_line(&mut store, &mut session, b"stats", 0, 100) {
        Action::SendServerStats(s) => {
            assert_eq!(s.commands.cmd_use, 2);
            assert_eq!(s.commands.cmd_peek, 1);
            assert_eq!(s.commands.cmd_reserve, 1);
            assert_eq!(s.commands.cmd_stats, 1);
            assert_eq!(s.commands.cmd_put, 0);
            assert_eq!(s.current_tubes, 3);
            assert_eq!(s.current_waiting, 1);
            assert_eq!(s.max_job_size, 100);
        },
        _ => panic!("expected server statistics"),
    }
}

#[test]
fn tube_statistics_pause_and_waiting() {
    let mut store = Store::new();
    let mut s1 = Session::new(1);
    let mut s2 = Session::new(2);
    assert_eq!(run(&mut store, &mut s1, b"reserve", 0), b"<wait>".to_vec());
    assert_eq!(run(&mut store, &mut s2, b"pause-tube default 30", 5), b"PAUSED\r\n".to_vec());
    match handle_line(&mut store, &mut s2, b"stats-tube default", 10, 65535) {
        Action::SendTubeStats(s) => {
            assert_eq!(s.pause, 30);
            assert_eq!(s.pause_time_left, 25);
            assert_eq!(s.current_waiting, 1);
            assert_eq!(s.cmd_pause_tube, 1);
        },
        _ => panic!("expected tube statistics"),
    }
}
