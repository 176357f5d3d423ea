use enchanted_beans::parser::{ParseState, ParsingError};
use enchanted_beans::protocol::BeanstalkCommand;
use enchanted_beans::protocol::BeanstalkCommand::{
    Bury, Delete, Ignore, Kick, KickJob, ListTubeUsed, ListTubes, ListTubesWatched, PauseTube, Peek,
    PeekBuried, PeekDelayed, PeekReady, Put, Quit, Release, Reserve, ReserveJob, ReserveWithTimeout,
    StatsJob, StatsServer, StatsTube, Touch, Use, Watch,
};
use enchanted_beans::serialisable::BeanstalkSerialisable;

// Asserts the line parses into the given command successfully.
fn ok(line: &[u8], res: BeanstalkCommand) {
    assert_eq!(BeanstalkCommand::parse(line), Ok(res));
}

// Asserts the line fails to parse with a BadFormat error.
fn bf(line: &[u8]) {
    assert_eq!(BeanstalkCommand::parse(line), Err(ParsingError::BadFormat));
}

// Asserts the line fails to parse with an UnknownCommand error.
fn uc(line: &[u8]) {
    assert_eq!(BeanstalkCommand::parse(line), Err(ParsingError::UnknownCommand));
}

#[test]
fn test_parse_command() {
    const U32_MAX_PLUS_1: u128 = 1 << 32 + 1;
    const U64_MAX_PLUS_1: u128 = 1 << 64 + 1;

    let name_200_bytes: String = (0..200).into_iter().map(|_| 'a').collect();
    let name_201_bytes: String = (0..201).into_iter().map(|_| 'a').collect();

    // Check silly non-commands
    bf(b"");
    bf(b" ");
    uc(b"syntax-error");

    // Check put with overflow protection.
    ok(
        b"put 987 654 321 123",
        Put {
            pri: 987,
            delay: 654,
            ttr: 321,
            n_bytes: 123,
        },
    );
    bf(format!("put {U32_MAX_PLUS_1} 0 0 0").as_bytes());
    bf(format!("put 0 {U32_MAX_PLUS_1} 0 0").as_bytes());
    bf(format!("put 0 0 {U32_MAX_PLUS_1} 0").as_bytes());
    bf(format!("put 0 0 0 {U32_MAX_PLUS_1}").as_bytes());

    // Check use with tube name requirements.
    ok(
        b"use tube_name_here-098+/;.()-",
        Use {
            tube: "tube_name_here-098+/;.()-".into(),
        },
    );
    bf(b"use foo bar");
    bf(b"use -foo");
    bf(b"use -");
    bf(b"use foo#bar");
    ok(
        format!("use {name_200_bytes}").as_bytes(),
        Use {
            tube: name_200_bytes.into(),
        },
    );
    bf(format!("use {name_201_bytes}").as_bytes());

    ok(b"reserve", Reserve);
    bf(b"reserve ");

    ok(b"reserve-with-timeout 123", ReserveWithTimeout { timeout: 123 });
    bf(format!("reserve-with-timeout {U32_MAX_PLUS_1}").as_bytes());

    ok(b"reserve-job 987", ReserveJob { id: 987 });
    bf(format!("reserve-job {U64_MAX_PLUS_1}").as_bytes());

    ok(b"delete 321", Delete { id: 321 });
    bf(format!("delete {U64_MAX_PLUS_1}").as_bytes());

    ok(
        b"release 987 654 321",
        Release {
            id: 987,
            pri: 654,
            delay: 321,
        },
    );
    ok(b"bury 543 987", Bury { id: 543, pri: 987 });

    ok(b"touch 123", Touch { id: 123 });
    ok(
        b"watch hello_world",
        Watch {
            tube: "hello_world".into(),
        },
    );
    ok(
        b"ignore hello_world",
        Ignore {
            tube: "hello_world".into(),
        },
    );

    ok(b"peek 987", Peek { id: 987 });
    ok(b"peek-ready", PeekReady);
    ok(b"peek-delayed", PeekDelayed);
    ok(b"peek-buried", PeekBuried);

    ok(b"kick 999", Kick { bound: 999 });
    ok(b"kick-job 432", KickJob { id: 432 });

    ok(b"stats-job 432", StatsJob { id: 432 });
    ok(
        b"stats-tube hello_world",
        StatsTube {
            tube: "hello_world".into(),
        },
    );
    ok(b"stats", StatsServer);

    ok(b"list-tubes", ListTubes);
    ok(b"list-tube-used", ListTubeUsed);
    ok(b"list-tubes-watched", ListTubesWatched);

    ok(b"quit", Quit);

    ok(
        b"pause-tube hello_world 62",
        PauseTube {
            tube: "hello_world".into(),
            delay: 62,
        },
    );
}

#[test]
fn numeric_fields_at_the_edge_of_their_range() {
    ok(
        format!("put {} 0 0 0", u32::MAX).as_bytes(),
        BeanstalkCommand::Put { pri: u32::MAX, delay: 0, ttr: 0, n_bytes: 0 },
    );
    bf(format!("put {} 0 0 0", u32::MAX as u64 + 1).as_bytes());
    ok(format!("delete {}", u64::MAX).as_bytes(), BeanstalkCommand::Delete { id: u64::MAX });
    bf(format!("delete {}", u64::MAX as u128 + 1).as_bytes());
    ok(
        b"release 18446744073709551615 4294967295 7",
        BeanstalkCommand::Release { id: u64::MAX, pri: u32::MAX, delay: 7 },
    );
}

#[test]
fn numeric_fields_reject_other_bytes() {
    bf(b"delete 12a");
    bf(b"delete -1");
    bf(b"delete +1");
    bf(b"put 1 2 3");
    bf(b"put 1 2 3 4 5");
    bf(b"put 1  2 3 4");
    bf(b"kick");
}

#[test]
fn names_and_commands_are_exact() {
    uc(b"PUT 1 2 3 4");
    uc(b"reserve-with");
    bf(b" reserve");
    ok(b"use a$b_c", BeanstalkCommand::Use { tube: b"a$b_c".to_vec() });
    ok(b"use a-", BeanstalkCommand::Use { tube: b"a-".to_vec() });
    bf(b"use ");
    bf(b"pause-tube t");
}

#[test]
fn parsing_errors_serialise() {
    assert_eq!(ParsingError::BadFormat.serialise_beanstalk(), b"BAD_FORMAT\r\n".to_vec());
    assert_eq!(
        ParsingError::UnknownCommand.serialise_beanstalk(),
        b"UNKNOWN_COMMAND\r\n".to_vec()
    );
    assert_eq!(ParsingError::BadFormat.to_string(), "bad format");
    assert_eq!(ParsingError::UnknownCommand.to_string(), "unknown command");
}

#[test]
fn field_readers_need_a_space_first() {
    let mut ps = ParseState::from(b"12 34");
    assert_eq!(ps.expect_next_u32(), Err(ParsingError::BadFormat));
    let mut ps = ParseState::from(b" 12 34");
    assert_eq!(ps.expect_next_u32(), Ok(12));
    assert_eq!(ps.from, b" 34");
    assert_eq!(ps.expect_next_u64(), Ok(34));
    assert_eq!(ps.expect_done_and(()), Ok(()));
    let mut ps = ParseState::from(b"tube");
    assert_eq!(ps.expect_next_name(), Err(ParsingError::BadFormat));
}
