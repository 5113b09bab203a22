use time::{Date, Month, OffsetDateTime, Time};
use utmp_rs::entry::UtmpError;
use utmp_rs::raw::x64::{timeval as timeval64, utmp as utmp64};
use utmp_rs::raw::{exit_status, timeval, utmp, RawRecord};
use utmp_rs::text::{cstr_from_bytes, find_nul, string_from_bytes};
use utmp_rs::timestamp::{MAX_UNIX_NANOS, MIN_UNIX_NANOS};
use utmp_rs::{Timestamp, UtmpEntry};

fn field<const N: usize>(text: &[u8]) -> [u8; N] {
    let mut out = [0u8; N];
    out[..text.len()].copy_from_slice(text);
    out
}

fn wide(tag: i16, line: &[u8], user: &[u8], host: &[u8], sec: i64, usec: i64) -> utmp64 {
    utmp64 {
        ut_type: tag,
        ut_pid: 77,
        ut_line: field(line),
        ut_id: [0; 4],
        ut_user: field(user),
        ut_host: field(host),
        ut_exit: exit_status { e_termination: 0, e_exit: 0 },
        ut_session: 9,
        ut_tv: timeval64 { tv_sec: sec, tv_usec: usec },
        ut_addr_v6: [0; 4],
        __unused: [0; 20],
    }
}

fn at(nanos: i128) -> Timestamp {
    Timestamp::from_unix_nanos(nanos).unwrap()
}

#[test]
fn every_known_tag_has_its_entry() {
    let time = at(5_000_007_000);
    let host = "h".to_owned();
    let cases = vec![
        (0, UtmpEntry::Empty),
        (1, UtmpEntry::RunLevel { pid: 77, kernel_version: host.clone(), time }),
        (2, UtmpEntry::BootTime { kernel_version: host.clone(), time }),
        (3, UtmpEntry::NewTime(time)),
        (4, UtmpEntry::OldTime(time)),
        (5, UtmpEntry::InitProcess { pid: 77, time }),
        (
            6,
            UtmpEntry::LoginProcess {
                pid: 77,
                time,
                line: "l".to_owned(),
                user: "u".to_owned(),
                host: host.clone(),
            },
        ),
        (
            7,
            UtmpEntry::UserProcess {
                pid: 77,
                line: "l".to_owned(),
                user: "u".to_owned(),
                host: host.clone(),
                session: 9,
                time,
            },
        ),
        (8, UtmpEntry::DeadProcess { pid: 77, line: "l".to_owned(), time }),
    ];
    for (tag, expected) in cases {
        let raw = wide(tag, b"l", b"u", b"h", 5, 7);
        assert_eq!(UtmpEntry::try_from(&raw).unwrap(), expected);
    }
    let raw = wide(9, b"l", b"u", b"h", 5, 7);
    assert!(matches!(UtmpEntry::try_from(&raw), Ok(UtmpEntry::Accounting { .. })));
}

#[test]
fn unknown_tags_are_rejected() {
    for tag in [10i16, 11, 255, -1, i16::MIN, i16::MAX] {
        let raw = wide(tag, b"l", b"u", b"h", 5, 7);
        match UtmpEntry::try_from(&raw) {
            Err(UtmpError::UnknownType(got)) => assert_eq!(got, tag),
            other => panic!("{:?}", other),
        }
    }
}

#[test]
fn shutdown_needs_both_marks() {
    let time = at(5_000_007_000);
    let shutdown = UtmpEntry::ShutdownTime { kernel_version: "k".to_owned(), time };
    let run_level = UtmpEntry::RunLevel { pid: 77, kernel_version: "k".to_owned(), time };
    let classify =
        |line: &[u8], user: &[u8]| UtmpEntry::try_from(&wide(1, line, user, b"k", 5, 7)).unwrap();
    assert_eq!(classify(b"~", b"shutdown"), shutdown);
    assert_eq!(classify(b"~~", b"shutdown"), shutdown);
    assert_eq!(classify(b"~", b"runlevel"), run_level);
    assert_eq!(classify(b"~", b"shutdow"), run_level);
    assert_eq!(classify(b"~", b"shutdowns"), run_level);
    assert_eq!(classify(b"~", b"Shutdown"), run_level);
    assert_eq!(classify(b"", b"shutdown"), run_level);
    assert_eq!(classify(b"tty1", b"shutdown"), run_level);
    // The mark belongs to run-level records only.
    assert_eq!(
        UtmpEntry::try_from(&wide(2, b"~", b"shutdown", b"k", 5, 7)).unwrap(),
        UtmpEntry::BootTime { kernel_version: "k".to_owned(), time }
    );
}

#[test]
fn unterminated_fields_are_errors() {
    let full_line = [b'x'; 32];
    let full_user = [b'y'; 32];
    let full_host = [b'z'; 256];
    for tag in [6i16, 7, 8] {
        match UtmpEntry::try_from(&wide(tag, &full_line, b"u", b"h", 5, 7)) {
            Err(UtmpError::InvalidLine(raw)) => assert_eq!(&raw[..], &full_line[..]),
            other => panic!("{:?}", other),
        }
    }
    for tag in [6i16, 7] {
        match UtmpEntry::try_from(&wide(tag, b"l", &full_user, b"h", 5, 7)) {
            Err(UtmpError::InvalidUser(raw)) => assert_eq!(&raw[..], &full_user[..]),
            other => panic!("{:?}", other),
        }
    }
    for tag in [1i16, 2, 6, 7] {
        match UtmpEntry::try_from(&wide(tag, b"l", b"u", &full_host, 5, 7)) {
            Err(UtmpError::InvalidHost(raw)) => assert_eq!(&raw[..], &full_host[..]),
            other => panic!("{:?}", other),
        }
    }
    // The longest text that fits leaves one byte for the terminator.
    let entry = UtmpEntry::try_from(&wide(8, &full_line[..31], b"", b"", 5, 7)).unwrap();
    assert_eq!(
        entry,
        UtmpEntry::DeadProcess { pid: 77, line: "x".repeat(31), time: at(5_000_007_000) }
    );
}

#[test]
fn fields_an_entry_does_not_carry_are_not_judged() {
    let full = [b'x'; 32];
    let time = at(5_000_007_000);
    assert_eq!(
        UtmpEntry::try_from(&wide(2, &full, &full, b"k", 5, 7)).unwrap(),
        UtmpEntry::BootTime { kernel_version: "k".to_owned(), time }
    );
    assert_eq!(
        UtmpEntry::try_from(&wide(8, b"l", &full, &[b'z'; 256], 5, 7)).unwrap(),
        UtmpEntry::DeadProcess { pid: 77, line: "l".to_owned(), time }
    );
    assert_eq!(
        UtmpEntry::try_from(&wide(5, &full, &full, &[0xff; 256], 5, 7)).unwrap(),
        UtmpEntry::InitProcess { pid: 77, time }
    );
    assert_eq!(UtmpEntry::try_from(&wide(0, &full, &full, &[0xff; 256], 5, -7)).unwrap(), UtmpEntry::Empty);
}

#[test]
fn first_failing_field_gives_the_error() {
    let full = [b'x'; 32];
    assert!(matches!(
        UtmpEntry::try_from(&wide(7, &full, &full, &[b'z'; 256], 5, -1)),
        Err(UtmpError::InvalidLine(_))
    ));
    assert!(matches!(
        UtmpEntry::try_from(&wide(7, b"l", &full, &[b'z'; 256], 5, -1)),
        Err(UtmpError::InvalidUser(_))
    ));
    assert!(matches!(
        UtmpEntry::try_from(&wide(7, b"l", b"u", &[b'z'; 256], 5, -1)),
        Err(UtmpError::InvalidHost(_))
    ));
    assert!(matches!(
        UtmpEntry::try_from(&wide(7, b"l", b"u", b"h", 5, -1)),
        Err(UtmpError::InvalidTime(_))
    ));
    assert!(matches!(
        UtmpEntry::try_from(&wide(1, b"~", b"shutdown", &[b'z'; 256], 5, -1)),
        Err(UtmpError::InvalidHost(_))
    ));
}

#[test]
fn text_stops_at_the_first_terminator() {
    assert_eq!(string_from_bytes(b"ab\0cd\0").unwrap(), "ab");
    assert_eq!(string_from_bytes(b"\0abc").unwrap(), "");
    assert_eq!(find_nul(b"ab\0cd\0"), Some(2));
    assert_eq!(find_nul(b"abcd"), None);
    assert_eq!(find_nul(b""), None);
    assert_eq!(&string_from_bytes(b"").unwrap_err()[..], b"");
    assert_eq!(&string_from_bytes(b"abc").unwrap_err()[..], b"abc");
}

#[test]
fn text_is_utf8() {
    assert_eq!(string_from_bytes("z\u{e9}\u{4e2d}\u{1f600}\0".as_bytes()).unwrap(), "z\u{e9}\u{4e2d}\u{1f600}");
    // A lone continuation byte, a cut sequence, an overlong form, a surrogate.
    for bad in [&b"a\x80\0"[..], &b"\xc3\0"[..], &b"\xc0\xaf\0"[..], &b"\xed\xa0\x80\0"[..]] {
        assert_eq!(&string_from_bytes(bad).unwrap_err()[..], bad);
    }
    // What follows the terminator is not read.
    assert_eq!(string_from_bytes(b"ok\0\xff\xff").unwrap(), "ok");
    match UtmpEntry::try_from(&wide(2, b"~", b"reboot", b"\xffkernel", 5, 7)) {
        Err(UtmpError::InvalidHost(raw)) => {
            assert_eq!(raw.len(), 256);
            assert_eq!(&raw[..8], b"\xffkernel\0");
        }
        other => panic!("{:?}", other),
    }
}

#[test]
fn time_is_seconds_and_microseconds() {
    let entry = UtmpEntry::try_from(&wide(3, b"", b"", b"", 1581199438, 54727)).unwrap();
    assert_eq!(entry, UtmpEntry::NewTime(at(1_581_199_438_054_727_000)));
    let entry = UtmpEntry::try_from(&wide(3, b"", b"", b"", -1, 250_000)).unwrap();
    assert_eq!(entry, UtmpEntry::NewTime(at(-750_000_000)));
    // Microseconds beyond a second carry into the seconds.
    let entry = UtmpEntry::try_from(&wide(4, b"", b"", b"", 10, 2_500_000)).unwrap();
    assert_eq!(entry, UtmpEntry::OldTime(at(12_500_000_000)));
    let entry = UtmpEntry::try_from(&wide(4, b"", b"", b"", 0, 0)).unwrap();
    assert_eq!(entry, UtmpEntry::OldTime(at(0)));
}

#[test]
fn negative_microseconds_are_errors() {
    for tag in 1i16..=8 {
        match UtmpEntry::try_from(&wide(tag, b"l", b"u", b"h", 5, -1)) {
            Err(UtmpError::InvalidTime(tv)) => {
                assert_eq!((tv.tv_sec, tv.tv_usec), (5, -1));
            }
            other => panic!("{:?}", other),
        }
    }
    assert!(matches!(
        UtmpEntry::try_from(&wide(3, b"", b"", b"", 5, i64::MIN)),
        Err(UtmpError::InvalidTime(_))
    ));
}

#[test]
fn times_out_of_range_are_errors() {
    let last_second = 253_402_300_799i64;
    let first_second = -377_705_116_800i64;
    assert_eq!(
        UtmpEntry::try_from(&wide(3, b"", b"", b"", last_second, 999_999)).unwrap(),
        UtmpEntry::NewTime(at(253_402_300_799_999_999_000))
    );
    assert_eq!(
        UtmpEntry::try_from(&wide(3, b"", b"", b"", first_second, 0)).unwrap(),
        UtmpEntry::NewTime(at(-377_705_116_800_000_000_000))
    );
    for (sec, usec) in [
        (last_second, 1_000_000),
        (last_second + 1, 0),
        (first_second - 1, 999_999),
        (i64::MAX, 0),
        (i64::MIN, 0),
        (i64::MAX, i64::MAX),
    ] {
        match UtmpEntry::try_from(&wide(3, b"", b"", b"", sec, usec)) {
            Err(UtmpError::InvalidTime(tv)) => assert_eq!((tv.tv_sec, tv.tv_usec), (sec, usec)),
            other => panic!("{:?}", other),
        }
    }
}

#[test]
fn timestamps_are_those_of_the_time_crate() {
    assert_eq!(Timestamp::from_unix_nanos(MAX_UNIX_NANOS).unwrap().unix_nanos(), MAX_UNIX_NANOS);
    assert_eq!(Timestamp::from_unix_nanos(MIN_UNIX_NANOS).unwrap().unix_nanos(), MIN_UNIX_NANOS);
    assert!(Timestamp::from_unix_nanos(MAX_UNIX_NANOS + 1).is_none());
    assert!(Timestamp::from_unix_nanos(MIN_UNIX_NANOS - 1).is_none());
    assert!(Timestamp::from_unix_nanos(i128::MAX).is_none());
    assert!(Timestamp::from_unix_nanos(i128::MIN).is_none());
    for nanos in [MIN_UNIX_NANOS, -1, 0, 1, 1_581_199_438_054_727_000, MAX_UNIX_NANOS] {
        let t = OffsetDateTime::from_unix_timestamp_nanos(nanos).unwrap();
        assert_eq!(t.unix_timestamp_nanos(), at(nanos).unix_nanos());
    }
    assert!(OffsetDateTime::from_unix_timestamp_nanos(MAX_UNIX_NANOS + 1).is_err());
    assert!(OffsetDateTime::from_unix_timestamp_nanos(MIN_UNIX_NANOS - 1).is_err());
    let first = OffsetDateTime::from_unix_timestamp_nanos(MIN_UNIX_NANOS).unwrap();
    assert_eq!((first.year(), first.ordinal(), first.time()), (-9999, 1, Time::MIDNIGHT));
    let last = OffsetDateTime::from_unix_timestamp_nanos(MAX_UNIX_NANOS).unwrap();
    assert_eq!((last.year(), last.month(), last.day()), (9999, Month::December, 31));
    assert_eq!(last.time(), Time::from_hms_nano(23, 59, 59, 999_999_999).unwrap());
}

#[test]
fn boot_then_user_process() {
    let boot = wide(2, b"~", b"reboot", b"5.3.0-29-generic", 1581199438, 54727);
    let user = utmp64 { ut_pid: 2555, ut_session: 0, ..wide(7, b":1", b"upsuper", b":1", 1581199675, 609322) };
    let boot = UtmpEntry::try_from(&boot).unwrap();
    let user = UtmpEntry::try_from(&user).unwrap();
    let day = Date::from_calendar_date(2020, Month::February, 8).unwrap();
    match &boot {
        UtmpEntry::BootTime { kernel_version, time } => {
            assert_eq!(kernel_version, "5.3.0-29-generic");
            assert_eq!(*time, at(1581199438_054727_000));
            assert_eq!(
                OffsetDateTime::from_unix_timestamp_nanos(time.unix_nanos()).unwrap(),
                day.with_time(Time::from_hms_micro(22, 3, 58, 54727).unwrap()).assume_utc()
            );
        }
        other => panic!("{:?}", other),
    }
    match &user {
        UtmpEntry::UserProcess { pid, line, user, host, session, time } => {
            assert_eq!((*pid, line.as_str(), user.as_str(), host.as_str(), *session), (2555, ":1", "upsuper", ":1", 0));
            assert_eq!(*time, at(1581199675_609322_000));
            assert_eq!(
                OffsetDateTime::from_unix_timestamp_nanos(time.unix_nanos()).unwrap(),
                day.with_time(Time::from_hms_micro(22, 7, 55, 609322).unwrap()).assume_utc()
            );
        }
        other => panic!("{:?}", other),
    }
}

#[test]
fn session_is_cut_to_32_bits() {
    let session = |s: i64| {
        let raw = utmp64 { ut_session: s, ..wide(7, b"l", b"u", b"h", 5, 7) };
        match UtmpEntry::try_from(&raw).unwrap() {
            UtmpEntry::UserProcess { session, .. } => session,
            other => panic!("{:?}", other),
        }
    };
    assert_eq!(session(0), 0);
    assert_eq!(session(-1), -1);
    assert_eq!(session(i32::MAX as i64), i32::MAX);
    assert_eq!(session(i32::MIN as i64), i32::MIN);
    assert_eq!(session(0x1_0000_0005), 5);
    assert_eq!(session(0x8000_0000), i32::MIN);
    assert_eq!(session(i64::MAX), -1);
}

#[test]
fn narrow_records_widen_field_by_field() {
    let narrow = utmp {
        ut_type: 7,
        ut_pid: -3,
        ut_line: field(b"pts/9"),
        ut_id: *b"ts/9",
        ut_user: field(b"root"),
        ut_host: field(b"example.org"),
        ut_exit: exit_status { e_termination: -2, e_exit: 3 },
        ut_session: i32::MIN,
        ut_tv: timeval { tv_sec: i32::MIN, tv_usec: i32::MAX },
        ut_addr_v6: [1, -2, 3, -4],
        __unused: [7; 20],
    };
    let wide = narrow.widen();
    assert_eq!(wide.ut_type, 7);
    assert_eq!(wide.ut_pid, -3);
    assert_eq!(wide.ut_line, narrow.ut_line);
    assert_eq!(wide.ut_id, *b"ts/9");
    assert_eq!(wide.ut_user, narrow.ut_user);
    assert_eq!(wide.ut_host, narrow.ut_host);
    assert_eq!((wide.ut_exit.e_termination, wide.ut_exit.e_exit), (-2, 3));
    assert_eq!(wide.ut_session, i32::MIN as i64);
    assert_eq!((wide.ut_tv.tv_sec, wide.ut_tv.tv_usec), (i32::MIN as i64, i32::MAX as i64));
    assert_eq!(wide.ut_addr_v6, [1, -2, 3, -4]);
    assert_eq!(wide.__unused, [7; 20]);
    assert_eq!(
        UtmpEntry::try_from(&narrow).unwrap(),
        UtmpEntry::UserProcess {
            pid: -3,
            line: "pts/9".to_owned(),
            user: "root".to_owned(),
            host: "example.org".to_owned(),
            session: i32::MIN,
            time: at((i32::MIN as i128 * 1_000_000 + i32::MAX as i128) * 1000),
        }
    );
}

#[test]
fn c_strings_keep_their_terminator() {
    assert_eq!(cstr_from_bytes(b"tty1\0\0\0"), b"tty1\0");
    assert_eq!(cstr_from_bytes(b"\0x"), b"\0");
    assert_eq!(cstr_from_bytes(b"a\0b\0"), b"a\0");
    assert_eq!(cstr_from_bytes(b"abc"), b"???\0");
    assert_eq!(cstr_from_bytes(b""), b"???\0");
    assert_eq!(cstr_from_bytes(b"\xff\0"), b"\xff\0");
}
