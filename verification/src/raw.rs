//! Raw records: the fields of one `utmp` record as they lie in the file.
//!
//! Two layouts exist. The narrow one, defined here, stores the session id
//! and the two halves of the time stamp in 32 bits each; the wide one, in
//! [`x64`], stores them in 64 bits. All numbers are little-endian. Byte
//! arrays are carried as they are: whether they hold text is not decided
//! here.

use vstd::prelude::*;
use crate::wire::{le_i16_at, le_i32_at, read_bytes, read_i16, read_i32};

pub mod x64;

verus! {

/// Record does not contain valid info (formerly known as `UT_UNKNOWN` on Linux)
pub const EMPTY: i16 = 0;

/// Change in system run-level (see `init(8)`)
pub const RUN_LVL: i16 = 1;

/// Time of system boot (in `ut_tv`)
pub const BOOT_TIME: i16 = 2;

/// Time after system clock change (in `ut_tv`)
pub const NEW_TIME: i16 = 3;

/// Time before system clock change (in `ut_tv`)
pub const OLD_TIME: i16 = 4;

/// Process spawned by `init(8)`
pub const INIT_PROCESS: i16 = 5;

/// Session leader process for user login
pub const LOGIN_PROCESS: i16 = 6;

/// Normal process
pub const USER_PROCESS: i16 = 7;

/// Terminated process
pub const DEAD_PROCESS: i16 = 8;

/// Not implemented
pub const ACCOUNTING: i16 = 9;

pub const UT_LINESIZE: usize = 32;

pub const UT_NAMESIZE: usize = 32;

pub const UT_HOSTSIZE: usize = 256;

/// What a raw record says, whichever layout it was stored in: each number
/// as a mathematical integer, each byte array as a sequence.
pub struct Fields {
    pub ut_type: int,
    pub ut_pid: int,
    pub ut_line: Seq<u8>,
    pub ut_id: Seq<u8>,
    pub ut_user: Seq<u8>,
    pub ut_host: Seq<u8>,
    pub e_termination: int,
    pub e_exit: int,
    pub ut_session: int,
    pub tv_sec: int,
    pub tv_usec: int,
    pub ut_addr_v6: Seq<i32>,
    pub unused: Seq<u8>,
}

/// A record layout: the size of one record and the place of each field in it.
pub trait RawRecord: Sized {
    /// Number of bytes that one record takes in a file.
    spec fn record_size() -> nat;

    /// The fields that a record of `record_size()` bytes holds.
    spec fn layout(bytes: Seq<u8>) -> Fields;

    /// The fields of this record.
    spec fn fields(&self) -> Fields;

    /// A record takes at least one byte.
    proof fn lemma_record_size_positive()
        ensures
            Self::record_size() > 0,
    ;

    /// Number of bytes that one record takes in a file.
    fn size() -> (n: usize)
        ensures
            n == Self::record_size(),
            n > 0,
    ;

    /// Lays one record's bytes out as a raw record. No field is judged.
    fn from_bytes(bytes: &[u8]) -> (r: Self)
        requires
            bytes@.len() == Self::record_size(),
        ensures
            r.fields() == Self::layout(bytes@),
    ;

    /// The same record in the wide layout.
    fn widen(&self) -> (w: x64::utmp)
        ensures
            w@ == self.fields(),
    ;
}

/// Type for `ut_exit`, below
#[derive(Clone, Copy, Debug)]
pub struct exit_status {
    /// Process termination status
    pub e_termination: i16,
    /// Process exit status
    pub e_exit: i16,
}

#[derive(Clone, Copy, Debug)]
pub struct timeval {
    /// Seconds
    pub tv_sec: i32,
    /// Microseconds
    pub tv_usec: i32,
}

#[derive(Clone, Copy, Debug)]
pub struct utmp {
    /// Type of record
    pub ut_type: i16,
    /// PID of login process
    pub ut_pid: i32,
    /// Device name of tty - `"/dev/"`
    pub ut_line: [u8; UT_LINESIZE],
    /// Terminal name suffix, or `inittab(5)` ID
    pub ut_id: [u8; 4],
    /// Username
    pub ut_user: [u8; UT_NAMESIZE],
    /// Hostname for remote login, or kernel version for run-level message
    pub ut_host: [u8; UT_HOSTSIZE],
    /// Exit status of a process marked as `DEAD_PROCESS`; not used by Linux init
    pub ut_exit: exit_status,
    /// Session ID (`getsid(2)`) used for windowing
    pub ut_session: i32,
    /// Time entry was made
    pub ut_tv: timeval,
    /// Internet address of remote host; IPv4 address uses just `ut_addr_v6[0]`
    pub ut_addr_v6: [i32; 4],
    /// Reserved for future use
    pub __unused: [u8; 20],
}

/// The four signed 32-bit numbers stored from offset `at` of `bytes`.
pub open spec fn le_i32x4_at(bytes: Seq<u8>, at: int) -> Seq<i32> {
    seq![
        le_i32_at(bytes, at) as i32,
        le_i32_at(bytes, at + 4) as i32,
        le_i32_at(bytes, at + 8) as i32,
        le_i32_at(bytes, at + 12) as i32,
    ]
}

impl View for utmp {
    type V = Fields;

    open spec fn view(&self) -> Fields {
        Fields {
            ut_type: self.ut_type as int,
            ut_pid: self.ut_pid as int,
            ut_line: self.ut_line@,
            ut_id: self.ut_id@,
            ut_user: self.ut_user@,
            ut_host: self.ut_host@,
            e_termination: self.ut_exit.e_termination as int,
            e_exit: self.ut_exit.e_exit as int,
            ut_session: self.ut_session as int,
            tv_sec: self.ut_tv.tv_sec as int,
            tv_usec: self.ut_tv.tv_usec as int,
            ut_addr_v6: self.ut_addr_v6@,
            unused: self.__unused@,
        }
    }
}

impl RawRecord for utmp {
    open spec fn record_size() -> nat {
        384
    }

    open spec fn layout(bytes: Seq<u8>) -> Fields {
        Fields {
            ut_type: le_i16_at(bytes, 0),
            ut_pid: le_i32_at(bytes, 4),
            ut_line: bytes.subrange(8, 40),
            ut_id: bytes.subrange(40, 44),
            ut_user: bytes.subrange(44, 76),
            ut_host: bytes.subrange(76, 332),
            e_termination: le_i16_at(bytes, 332),
            e_exit: le_i16_at(bytes, 334),
            ut_session: le_i32_at(bytes, 336),
            tv_sec: le_i32_at(bytes, 340),
            tv_usec: le_i32_at(bytes, 344),
            ut_addr_v6: le_i32x4_at(bytes, 348),
            unused: bytes.subrange(364, 384),
        }
    }

    open spec fn fields(&self) -> Fields {
        self@
    }

    proof fn lemma_record_size_positive() {
    }

    fn size() -> (n: usize) {
        384
    }

    fn from_bytes(bytes: &[u8]) -> (r: Self) {
        let r = utmp {
            ut_type: read_i16(bytes, 0),
            ut_pid: read_i32(bytes, 4),
            ut_line: read_bytes::<UT_LINESIZE>(bytes, 8),
            ut_id: read_bytes::<4>(bytes, 40),
            ut_user: read_bytes::<UT_NAMESIZE>(bytes, 44),
            ut_host: read_bytes::<UT_HOSTSIZE>(bytes, 76),
            ut_exit: exit_status {
                e_termination: read_i16(bytes, 332),
                e_exit: read_i16(bytes, 334),
            },
            ut_session: read_i32(bytes, 336),
            ut_tv: timeval { tv_sec: read_i32(bytes, 340), tv_usec: read_i32(bytes, 344) },
            ut_addr_v6: [
                read_i32(bytes, 348),
                read_i32(bytes, 352),
                read_i32(bytes, 356),
                read_i32(bytes, 360),
            ],
            __unused: read_bytes::<20>(bytes, 364),
        };
        assert(r.ut_addr_v6@ =~= le_i32x4_at(bytes@, 348));
        r
    }

    fn widen(&self) -> (w: x64::utmp) {
        x64::utmp {
            ut_type: self.ut_type,
            ut_pid: self.ut_pid,
            ut_line: self.ut_line,
            ut_id: self.ut_id,
            ut_user: self.ut_user,
            ut_host: self.ut_host,
            ut_exit: self.ut_exit,
            ut_session: self.ut_session as i64,
            ut_tv: x64::timeval {
                tv_sec: self.ut_tv.tv_sec as i64,
                tv_usec: self.ut_tv.tv_usec as i64,
            },
            ut_addr_v6: self.ut_addr_v6,
            __unused: self.__unused,
        }
    }
}

/// A narrow record takes 384 bytes, a wide one 400: the wide layout is the
/// larger by the four bytes that each of three fields gains, rounded up to
/// a multiple of eight.
pub proof fn lemma_record_sizes()
    ensures
        <utmp as RawRecord>::record_size() == 384,
        <x64::utmp as RawRecord>::record_size() == 400,
        <utmp as RawRecord>::record_size() < <x64::utmp as RawRecord>::record_size(),
{
}

} // verus!
