//! Classified entries: what one raw record means.

use vstd::prelude::*;
use vstd::std_specs::convert::TryFromSpecImpl;
use crate::raw::x64::timeval as timeval64;
use crate::raw::x64::utmp as utmp64;
use crate::raw::utmp as utmp32;
use crate::raw::{
    Fields, RawRecord, ACCOUNTING, BOOT_TIME, DEAD_PROCESS, EMPTY, INIT_PROCESS, LOGIN_PROCESS,
    NEW_TIME, OLD_TIME, RUN_LVL, USER_PROCESS,
};
use crate::text::{lemma_unterminated, string_from_bytes, text_of};
use crate::timestamp::{supported, Timestamp};

verus! {

/// Parsed utmp entry.
#[derive(Clone, Debug, Eq, PartialEq)]
#[non_exhaustive]
pub enum UtmpEntry {
    /// Record does not contain valid info
    Empty,
    /// Change in system run-level (see `init(8)`)
    RunLevel {
        /// PID of the process that wrote the record
        pid: i32,
        /// Kernel version
        kernel_version: String,
        /// Time entry was made
        time: Timestamp,
    },
    /// Time of system boot
    BootTime {
        /// Kernel version
        kernel_version: String,
        /// Time entry was made
        time: Timestamp,
    },
    /// Time of system shutdown
    ShutdownTime {
        /// Kernel version
        kernel_version: String,
        /// Time entry was made
        time: Timestamp,
    },
    /// Time after system clock change
    NewTime(Timestamp),
    /// Time before system clock change
    OldTime(Timestamp),
    /// Process spawned by `init(8)`
    InitProcess {
        /// PID of the init process
        pid: i32,
        /// Time entry was made
        time: Timestamp,
    },
    /// Session leader process for user login
    LoginProcess {
        /// PID of the login process
        pid: i32,
        /// Time entry was made
        time: Timestamp,
        /// Device name of tty
        line: String,
        /// Username
        user: String,
        /// Hostname for remote login
        host: String,
    },
    /// Normal process
    UserProcess {
        /// PID of login process
        pid: i32,
        /// Device name of tty
        line: String,
        /// Username
        user: String,
        /// Hostname for remote login
        host: String,
        /// Session ID (`getsid(2)`)
        session: i32,
        /// Time entry was made
        time: Timestamp,
    },
    /// Terminated process
    DeadProcess {
        /// PID of the terminated process
        pid: i32,
        /// Device name of tty
        line: String,
        /// Time entry was made
        time: Timestamp,
    },
    /// Not implemented
    #[non_exhaustive]
    Accounting,
}

/// Why a raw record has no entry.
#[derive(Debug)]
#[non_exhaustive]
pub enum UtmpError {
    /// The type tag is none of the known ones.
    UnknownType(i16),
    /// The microseconds are negative, or the instant is out of range.
    InvalidTime(timeval64),
    /// The line field is not terminated, or is not UTF-8.
    InvalidLine(Box<[u8]>),
    /// The user field is not terminated, or is not UTF-8.
    InvalidUser(Box<[u8]>),
    /// The host field is not terminated, or is not UTF-8.
    InvalidHost(Box<[u8]>),
}

/// An entry with its strings as sequences of characters, its numbers as
/// integers and its times as nanoseconds since the epoch.
pub enum EntryView {
    Empty,
    RunLevel { pid: int, kernel_version: Seq<char>, time: int },
    BootTime { kernel_version: Seq<char>, time: int },
    ShutdownTime { kernel_version: Seq<char>, time: int },
    NewTime(int),
    OldTime(int),
    InitProcess { pid: int, time: int },
    LoginProcess { pid: int, time: int, line: Seq<char>, user: Seq<char>, host: Seq<char> },
    UserProcess {
        pid: int,
        line: Seq<char>,
        user: Seq<char>,
        host: Seq<char>,
        session: int,
        time: int,
    },
    DeadProcess { pid: int, line: Seq<char>, time: int },
    Accounting,
}

/// An error with the offending value as plain numbers and bytes.
pub enum ErrorView {
    UnknownType(int),
    InvalidTime { tv_sec: int, tv_usec: int },
    InvalidLine(Seq<u8>),
    InvalidUser(Seq<u8>),
    InvalidHost(Seq<u8>),
}

impl View for UtmpEntry {
    type V = EntryView;

    open spec fn view(&self) -> EntryView {
        match *self {
            UtmpEntry::Empty => EntryView::Empty,
            UtmpEntry::RunLevel { pid, kernel_version, time } => EntryView::RunLevel {
                pid: pid as int,
                kernel_version: kernel_version@,
                time: time@,
            },
            UtmpEntry::BootTime { kernel_version, time } => EntryView::BootTime {
                kernel_version: kernel_version@,
                time: time@,
            },
            UtmpEntry::ShutdownTime { kernel_version, time } => EntryView::ShutdownTime {
                kernel_version: kernel_version@,
                time: time@,
            },
            UtmpEntry::NewTime(time) => EntryView::NewTime(time@),
            UtmpEntry::OldTime(time) => EntryView::OldTime(time@),
            UtmpEntry::InitProcess { pid, time } => EntryView::InitProcess {
                pid: pid as int,
                time: time@,
            },
            UtmpEntry::LoginProcess { pid, time, line, user, host } => EntryView::LoginProcess {
                pid: pid as int,
                time: time@,
                line: line@,
                user: user@,
                host: host@,
            },
            UtmpEntry::UserProcess { pid, line, user, host, session, time } => {
                EntryView::UserProcess {
                    pid: pid as int,
                    line: line@,
                    user: user@,
                    host: host@,
                    session: session as int,
                    time: time@,
                }
            },
            UtmpEntry::DeadProcess { pid, line, time } => EntryView::DeadProcess {
                pid: pid as int,
                line: line@,
                time: time@,
            },
            UtmpEntry::Accounting => EntryView::Accounting,
        }
    }
}

impl View for UtmpError {
    type V = ErrorView;

    open spec fn view(&self) -> ErrorView {
        match *self {
            UtmpError::UnknownType(tag) => ErrorView::UnknownType(tag as int),
            UtmpError::InvalidTime(tv) => ErrorView::InvalidTime {
                tv_sec: tv.tv_sec as int,
                tv_usec: tv.tv_usec as int,
            },
            UtmpError::InvalidLine(raw) => ErrorView::InvalidLine(raw@),
            UtmpError::InvalidUser(raw) => ErrorView::InvalidUser(raw@),
            UtmpError::InvalidHost(raw) => ErrorView::InvalidHost(raw@),
        }
    }
}

/// The view of a classification's outcome.
pub open spec fn outcome(r: Result<UtmpEntry, UtmpError>) -> Result<EntryView, ErrorView> {
    match r {
        Ok(entry) => Ok(entry@),
        Err(error) => Err(error@),
    }
}

/// The instant that a seconds and microseconds pair names, in nanoseconds
/// since the epoch: none if the microseconds are negative or the instant
/// is not a supported one.
pub open spec fn time_of(tv_sec: int, tv_usec: int) -> Option<int> {
    let nanos = (tv_sec * 1_000_000 + tv_usec) * 1000;
    if tv_usec >= 0 && supported(nanos) {
        Some(nanos)
    } else {
        None
    }
}

/// The bytes `shutdown` and the zero byte that ends them.
pub open spec fn shutdown_mark() -> Seq<u8> {
    seq![0x73u8, 0x68u8, 0x75u8, 0x74u8, 0x64u8, 0x6fu8, 0x77u8, 0x6eu8, 0u8]
}

/// The mark by which a run-level record announces a shutdown: a line that
/// starts with `~` and the user `shutdown`.
pub open spec fn is_shutdown(f: Fields) -> bool {
    f.ut_line[0] == 0x7e && f.ut_user.subrange(0, 9) == shutdown_mark()
}

/// The truncation of a session id to 32 bits.
pub open spec fn session_of(f: Fields) -> int {
    (f.ut_session as i64) as i32 as int
}

/// The entry of a record that carries a kernel version and a time.
pub open spec fn classify_system(f: Fields) -> Result<EntryView, ErrorView> {
    match text_of(f.ut_host) {
        None => Err(ErrorView::InvalidHost(f.ut_host)),
        Some(kernel_version) => match time_of(f.tv_sec, f.tv_usec) {
            None => Err(ErrorView::InvalidTime { tv_sec: f.tv_sec, tv_usec: f.tv_usec }),
            Some(time) => if f.ut_type == BOOT_TIME {
                Ok(EntryView::BootTime { kernel_version, time })
            } else if is_shutdown(f) {
                Ok(EntryView::ShutdownTime { kernel_version, time })
            } else {
                Ok(EntryView::RunLevel { pid: f.ut_pid, kernel_version, time })
            },
        },
    }
}

/// The entry of a record that carries only a time, and a pid at most.
pub open spec fn classify_timed(f: Fields) -> Result<EntryView, ErrorView> {
    match time_of(f.tv_sec, f.tv_usec) {
        None => Err(ErrorView::InvalidTime { tv_sec: f.tv_sec, tv_usec: f.tv_usec }),
        Some(time) => if f.ut_type == NEW_TIME {
            Ok(EntryView::NewTime(time))
        } else if f.ut_type == OLD_TIME {
            Ok(EntryView::OldTime(time))
        } else {
            Ok(EntryView::InitProcess { pid: f.ut_pid, time })
        },
    }
}

/// The entry of a dead process record: it carries a line and a time, and
/// the line is judged first.
pub open spec fn classify_dead(f: Fields) -> Result<EntryView, ErrorView> {
    match text_of(f.ut_line) {
        None => Err(ErrorView::InvalidLine(f.ut_line)),
        Some(line) => match time_of(f.tv_sec, f.tv_usec) {
            None => Err(ErrorView::InvalidTime { tv_sec: f.tv_sec, tv_usec: f.tv_usec }),
            Some(time) => Ok(EntryView::DeadProcess { pid: f.ut_pid, line, time }),
        },
    }
}

/// The entry of a login or user process record. The fields are judged in
/// the order line, user, host, time, and the first that fails gives the
/// error.
pub open spec fn classify_session(f: Fields) -> Result<EntryView, ErrorView> {
    match text_of(f.ut_line) {
        None => Err(ErrorView::InvalidLine(f.ut_line)),
        Some(line) => match text_of(f.ut_user) {
            None => Err(ErrorView::InvalidUser(f.ut_user)),
            Some(user) => match text_of(f.ut_host) {
                None => Err(ErrorView::InvalidHost(f.ut_host)),
                Some(host) => match time_of(f.tv_sec, f.tv_usec) {
                    None => Err(
                        ErrorView::InvalidTime { tv_sec: f.tv_sec, tv_usec: f.tv_usec },
                    ),
                    Some(time) => if f.ut_type == LOGIN_PROCESS {
                        Ok(EntryView::LoginProcess { pid: f.ut_pid, time, line, user, host })
                    } else {
                        Ok(
                            EntryView::UserProcess {
                                pid: f.ut_pid,
                                line,
                                user,
                                host,
                                session: session_of(f),
                                time,
                            },
                        )
                    },
                },
            },
        },
    }
}

/// The entry that a raw record stands for, or the reason it has none.
pub open spec fn classify(f: Fields) -> Result<EntryView, ErrorView> {
    if f.ut_type == EMPTY {
        Ok(EntryView::Empty)
    } else if f.ut_type == RUN_LVL || f.ut_type == BOOT_TIME {
        classify_system(f)
    } else if f.ut_type == NEW_TIME || f.ut_type == OLD_TIME || f.ut_type == INIT_PROCESS {
        classify_timed(f)
    } else if f.ut_type == LOGIN_PROCESS || f.ut_type == USER_PROCESS {
        classify_session(f)
    } else if f.ut_type == DEAD_PROCESS {
        classify_dead(f)
    } else if f.ut_type == ACCOUNTING {
        Ok(EntryView::Accounting)
    } else {
        Err(ErrorView::UnknownType(f.ut_type))
    }
}

/// Converts a seconds and microseconds pair into an instant.
pub fn time_from_tv(tv: timeval64) -> (r: Result<Timestamp, UtmpError>)
    ensures
        match r {
            Ok(t) => time_of(tv.tv_sec as int, tv.tv_usec as int) == Some(t@),
            Err(e) => time_of(tv.tv_sec as int, tv.tv_usec as int).is_none() && e@
                == (ErrorView::InvalidTime { tv_sec: tv.tv_sec as int, tv_usec: tv.tv_usec as int }),
        },
{
    if tv.tv_usec < 0 {
        return Err(UtmpError::InvalidTime(tv));
    }
    let usec: i128 = tv.tv_sec as i128 * 1_000_000 + tv.tv_usec as i128;
    match Timestamp::from_unix_nanos(usec * 1000) {
        Some(t) => Ok(t),
        None => Err(UtmpError::InvalidTime(tv)),
    }
}

/// Reads the host field as a kernel version or host name.
fn host_from(from: &utmp64) -> (r: Result<String, UtmpError>)
    ensures
        match r {
            Ok(s) => text_of(from@.ut_host) == Some(s@),
            Err(e) => text_of(from@.ut_host).is_none() && e@ == ErrorView::InvalidHost(
                from@.ut_host,
            ),
        },
{
    match string_from_bytes(from.ut_host.as_slice()) {
        Ok(s) => Ok(s),
        Err(raw) => Err(UtmpError::InvalidHost(raw)),
    }
}

/// Reads the line field as a device name.
fn line_from(from: &utmp64) -> (r: Result<String, UtmpError>)
    ensures
        match r {
            Ok(s) => text_of(from@.ut_line) == Some(s@),
            Err(e) => text_of(from@.ut_line).is_none() && e@ == ErrorView::InvalidLine(
                from@.ut_line,
            ),
        },
{
    match string_from_bytes(from.ut_line.as_slice()) {
        Ok(s) => Ok(s),
        Err(raw) => Err(UtmpError::InvalidLine(raw)),
    }
}

/// Reads the user field as a user name.
fn user_from(from: &utmp64) -> (r: Result<String, UtmpError>)
    ensures
        match r {
            Ok(s) => text_of(from@.ut_user) == Some(s@),
            Err(e) => text_of(from@.ut_user).is_none() && e@ == ErrorView::InvalidUser(
                from@.ut_user,
            ),
        },
{
    match string_from_bytes(from.ut_user.as_slice()) {
        Ok(s) => Ok(s),
        Err(raw) => Err(UtmpError::InvalidUser(raw)),
    }
}

/// Tells whether a run-level record carries the shutdown mark.
fn has_shutdown_mark(from: &utmp64) -> (r: bool)
    ensures
        r == is_shutdown(from@),
{
    let user = &from.ut_user;
    let r = from.ut_line[0] == 0x7e && user[0] == 0x73 && user[1] == 0x68 && user[2] == 0x75
        && user[3] == 0x74 && user[4] == 0x64 && user[5] == 0x6f && user[6] == 0x77 && user[7]
        == 0x6e && user[8] == 0;
    proof {
        let head = from@.ut_user.subrange(0, 9);
        if r {
            assert(head =~= shutdown_mark());
        } else if from.ut_line[0] == 0x7e {
            assert(forall|i: int| 0 <= i < 9 ==> head[i] == from@.ut_user[i]);
            assert(exists|i: int| 0 <= i < 9 && head[i] != shutdown_mark()[i]) by {
                let m = shutdown_mark();
                if user[0] != 0x73 {
                    assert(head[0] != m[0]);
                } else if user[1] != 0x68 {
                    assert(head[1] != m[1]);
                } else if user[2] != 0x75 {
                    assert(head[2] != m[2]);
                } else if user[3] != 0x74 {
                    assert(head[3] != m[3]);
                } else if user[4] != 0x64 {
                    assert(head[4] != m[4]);
                } else if user[5] != 0x6f {
                    assert(head[5] != m[5]);
                } else if user[6] != 0x77 {
                    assert(head[6] != m[6]);
                } else if user[7] != 0x6e {
                    assert(head[7] != m[7]);
                } else {
                    assert(head[8] != m[8]);
                }
            }
        }
    }
    r
}

/// The entry of a run-level or boot record.
fn system_entry(from: &utmp64) -> (r: Result<UtmpEntry, UtmpError>)
    requires
        from.ut_type == RUN_LVL || from.ut_type == BOOT_TIME,
    ensures
        outcome(r) == classify_system(from@),
{
    let kernel_version = match host_from(from) {
        Ok(s) => s,
        Err(e) => {
            return Err(e);
        },
    };
    let time = match time_from_tv(from.ut_tv) {
        Ok(t) => t,
        Err(e) => {
            return Err(e);
        },
    };
    if from.ut_type == BOOT_TIME {
        Ok(UtmpEntry::BootTime { kernel_version, time })
    } else if has_shutdown_mark(from) {
        Ok(UtmpEntry::ShutdownTime { kernel_version, time })
    } else {
        Ok(UtmpEntry::RunLevel { pid: from.ut_pid, kernel_version, time })
    }
}

/// The entry of a clock change or init process record.
fn timed_entry(from: &utmp64) -> (r: Result<UtmpEntry, UtmpError>)
    ensures
        outcome(r) == classify_timed(from@),
{
    let time = match time_from_tv(from.ut_tv) {
        Ok(t) => t,
        Err(e) => {
            return Err(e);
        },
    };
    if from.ut_type == NEW_TIME {
        Ok(UtmpEntry::NewTime(time))
    } else if from.ut_type == OLD_TIME {
        Ok(UtmpEntry::OldTime(time))
    } else {
        Ok(UtmpEntry::InitProcess { pid: from.ut_pid, time })
    }
}

/// The entry of a dead process record.
fn dead_entry(from: &utmp64) -> (r: Result<UtmpEntry, UtmpError>)
    ensures
        outcome(r) == classify_dead(from@),
{
    let line = match line_from(from) {
        Ok(s) => s,
        Err(e) => {
            return Err(e);
        },
    };
    match time_from_tv(from.ut_tv) {
        Ok(time) => Ok(UtmpEntry::DeadProcess { pid: from.ut_pid, line, time }),
        Err(e) => Err(e),
    }
}

/// The entry of a login or user process record.
fn session_entry(from: &utmp64) -> (r: Result<UtmpEntry, UtmpError>)
    ensures
        outcome(r) == classify_session(from@),
{
    let line = match line_from(from) {
        Ok(s) => s,
        Err(e) => {
            return Err(e);
        },
    };
    let user = match user_from(from) {
        Ok(s) => s,
        Err(e) => {
            return Err(e);
        },
    };
    let host = match host_from(from) {
        Ok(s) => s,
        Err(e) => {
            return Err(e);
        },
    };
    let time = match time_from_tv(from.ut_tv) {
        Ok(t) => t,
        Err(e) => {
            return Err(e);
        },
    };
    if from.ut_type == LOGIN_PROCESS {
        Ok(UtmpEntry::LoginProcess { pid: from.ut_pid, time, line, user, host })
    } else {
        let session: i32 = #[verifier::truncate]
        (from.ut_session as i32);
        Ok(UtmpEntry::UserProcess { pid: from.ut_pid, line, user, host, session, time })
    }
}

impl<'a> TryFrom<&'a utmp64> for UtmpEntry {
    type Error = UtmpError;

    /// Classifies a wide raw record.
    fn try_from(from: &'a utmp64) -> (r: Result<Self, UtmpError>)
        ensures
            outcome(r) == classify(from@),
    {
        let tag: i16 = from.ut_type;
        if tag == EMPTY {
            Ok(UtmpEntry::Empty)
        } else if tag == RUN_LVL || tag == BOOT_TIME {
            system_entry(from)
        } else if tag == NEW_TIME || tag == OLD_TIME || tag == INIT_PROCESS {
            timed_entry(from)
        } else if tag == LOGIN_PROCESS || tag == USER_PROCESS {
            session_entry(from)
        } else if tag == DEAD_PROCESS {
            dead_entry(from)
        } else if tag == ACCOUNTING {
            Ok(UtmpEntry::Accounting)
        } else {
            Err(UtmpError::UnknownType(tag))
        }
    }
}

/// What `try_from` returns is stated in its own `ensures`, over views; no
/// value of `UtmpEntry` is named here, so the trait's own equation is not
/// claimed.
impl<'a> TryFromSpecImpl<&'a utmp64> for UtmpEntry {
    open spec fn obeys_try_from_spec() -> bool {
        false
    }

    open spec fn try_from_spec(v: &'a utmp64) -> Result<Self, UtmpError> {
        arbitrary()
    }
}

impl<'a> TryFrom<&'a utmp32> for UtmpEntry {
    type Error = UtmpError;

    /// Classifies a narrow raw record, as the wide record with the same
    /// fields.
    fn try_from(from: &'a utmp32) -> (r: Result<Self, UtmpError>)
        ensures
            outcome(r) == classify(from@),
    {
        let wide = from.widen();
        UtmpEntry::try_from(&wide)
    }
}

/// As for the wide record: the contract is the `ensures` of `try_from`.
impl<'a> TryFromSpecImpl<&'a utmp32> for UtmpEntry {
    open spec fn obeys_try_from_spec() -> bool {
        false
    }

    open spec fn try_from_spec(v: &'a utmp32) -> Result<Self, UtmpError> {
        arbitrary()
    }
}

/// The record's text fields that are read before its time are all text.
pub open spec fn texts_before_time(f: Fields) -> bool {
    if f.ut_type == RUN_LVL || f.ut_type == BOOT_TIME {
        text_of(f.ut_host).is_some()
    } else if f.ut_type == LOGIN_PROCESS || f.ut_type == USER_PROCESS {
        text_of(f.ut_line).is_some() && text_of(f.ut_user).is_some() && text_of(
            f.ut_host,
        ).is_some()
    } else if f.ut_type == DEAD_PROCESS {
        text_of(f.ut_line).is_some()
    } else {
        true
    }
}

/// A run-level record whose host and time are sound is a shutdown where
/// it carries the shutdown mark, and a change of run level where it does
/// not; and no record without the mark is a shutdown.
pub proof fn lemma_run_level_or_shutdown(f: Fields)
    requires
        f.ut_type == RUN_LVL,
    ensures
        text_of(f.ut_host).is_some() && time_of(f.tv_sec, f.tv_usec).is_some() ==> classify(f)
            == if is_shutdown(f) {
            Ok::<EntryView, ErrorView>(
                EntryView::ShutdownTime {
                    kernel_version: text_of(f.ut_host).unwrap(),
                    time: time_of(f.tv_sec, f.tv_usec).unwrap(),
                },
            )
        } else {
            Ok(
                EntryView::RunLevel {
                    pid: f.ut_pid,
                    kernel_version: text_of(f.ut_host).unwrap(),
                    time: time_of(f.tv_sec, f.tv_usec).unwrap(),
                },
            )
        },
        classify(f) is Ok ==> text_of(f.ut_host).is_some() && time_of(
            f.tv_sec,
            f.tv_usec,
        ).is_some(),
{
}

/// Only a run-level record with the shutdown mark is a shutdown.
pub proof fn lemma_shutdown_only_by_mark(f: Fields)
    requires
        classify(f) matches Ok(EntryView::ShutdownTime { .. }),
    ensures
        f.ut_type == RUN_LVL,
        is_shutdown(f),
{
}

/// A record that carries a line, and whose line field has no zero byte,
/// has no entry: the error is the line's, with the whole field.
pub proof fn lemma_unterminated_line(f: Fields)
    requires
        f.ut_type == LOGIN_PROCESS || f.ut_type == USER_PROCESS || f.ut_type == DEAD_PROCESS,
        forall|j: int| 0 <= j < f.ut_line.len() ==> f.ut_line[j] != 0,
    ensures
        classify(f) == Err::<EntryView, ErrorView>(ErrorView::InvalidLine(f.ut_line)),
{
    lemma_unterminated(f.ut_line);
}

/// A record that carries a user, whose line is text and whose user field
/// has no zero byte, has no entry: the error is the user's, with the whole
/// field.
pub proof fn lemma_unterminated_user(f: Fields)
    requires
        f.ut_type == LOGIN_PROCESS || f.ut_type == USER_PROCESS,
        text_of(f.ut_line).is_some(),
        forall|j: int| 0 <= j < f.ut_user.len() ==> f.ut_user[j] != 0,
    ensures
        classify(f) == Err::<EntryView, ErrorView>(ErrorView::InvalidUser(f.ut_user)),
{
    lemma_unterminated(f.ut_user);
}

/// A record that carries a kernel version, and whose host field has no
/// zero byte, has no entry: the error is the host's, with the whole field.
pub proof fn lemma_unterminated_host(f: Fields)
    requires
        f.ut_type == RUN_LVL || f.ut_type == BOOT_TIME,
        forall|j: int| 0 <= j < f.ut_host.len() ==> f.ut_host[j] != 0,
    ensures
        classify(f) == Err::<EntryView, ErrorView>(ErrorView::InvalidHost(f.ut_host)),
{
    lemma_unterminated(f.ut_host);
}

/// A record that carries a time, and whose microseconds are negative, has
/// no entry; where the text fields read before the time are sound, the
/// error is the time's, with both numbers as they were stored.
pub proof fn lemma_negative_microseconds(f: Fields)
    requires
        RUN_LVL <= f.ut_type <= DEAD_PROCESS,
        f.tv_usec < 0,
    ensures
        classify(f) is Err,
        texts_before_time(f) ==> classify(f) == Err::<EntryView, ErrorView>(
            ErrorView::InvalidTime { tv_sec: f.tv_sec, tv_usec: f.tv_usec },
        ),
{
}

} // verus!
