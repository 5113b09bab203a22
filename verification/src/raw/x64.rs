//! The wide layout: session id and time stamp in 64 bits each.

use vstd::prelude::*;
use crate::raw::{exit_status, le_i32x4_at, Fields, RawRecord, UT_HOSTSIZE, UT_LINESIZE, UT_NAMESIZE};
use crate::wire::{le_i16_at, le_i32_at, le_i64_at, read_bytes, read_i16, read_i32, read_i64};

verus! {

#[derive(Clone, Copy, Debug)]
pub struct timeval {
    /// Seconds
    pub tv_sec: i64,
    /// Microseconds
    pub tv_usec: i64,
}

#[derive(Clone, Copy, Debug)]
pub struct utmp {
    /// Type of record
    pub ut_type: i16,
    /// PID of login process
    pub ut_pid: i32,
    /// Device name of tty - `"/dev/"`
    pub ut_line: [u8; UT_LINESIZE],
    /// Terminal name suffix, or `inittab(5)` ID
    pub ut_id: [u8; 4],
    /// Username
    pub ut_user: [u8; UT_NAMESIZE],
    /// Hostname for remote login, or kernel version for run-level message
    pub ut_host: [u8; UT_HOSTSIZE],
    /// Exit status of a process marked as `DEAD_PROCESS`; not used by Linux init
    pub ut_exit: exit_status,
    /// Session ID (`getsid(2)`) used for windowing
    pub ut_session: i64,
    /// Time entry was made
    pub ut_tv: timeval,
    /// Internet address of remote host; IPv4 address uses just `ut_addr_v6[0]`
    pub ut_addr_v6: [i32; 4],
    /// Reserved for future use
    pub __unused: [u8; 20],
}

impl View for utmp {
    type V = Fields;

    open spec fn view(&self) -> Fields {
        Fields {
            ut_type: self.ut_type as int,
            ut_pid: self.ut_pid as int,
            ut_line: self.ut_line@,
            ut_id: self.ut_id@,
            ut_user: self.ut_user@,
            ut_host: self.ut_host@,
            e_termination: self.ut_exit.e_termination as int,
            e_exit: self.ut_exit.e_exit as int,
            ut_session: self.ut_session as int,
            tv_sec: self.ut_tv.tv_sec as int,
            tv_usec: self.ut_tv.tv_usec as int,
            ut_addr_v6: self.ut_addr_v6@,
            unused: self.__unused@,
        }
    }
}

impl RawRecord for utmp {
    open spec fn record_size() -> nat {
        400
    }

    open spec fn layout(bytes: Seq<u8>) -> Fields {
        Fields {
            ut_type: le_i16_at(bytes, 0),
            ut_pid: le_i32_at(bytes, 4),
            ut_line: bytes.subrange(8, 40),
            ut_id: bytes.subrange(40, 44),
            ut_user: bytes.subrange(44, 76),
            ut_host: bytes.subrange(76, 332),
            e_termination: le_i16_at(bytes, 332),
            e_exit: le_i16_at(bytes, 334),
            ut_session: le_i64_at(bytes, 336),
            tv_sec: le_i64_at(bytes, 344),
            tv_usec: le_i64_at(bytes, 352),
            ut_addr_v6: le_i32x4_at(bytes, 360),
            unused: bytes.subrange(376, 396),
        }
    }

    open spec fn fields(&self) -> Fields {
        self@
    }

    proof fn lemma_record_size_positive() {
    }

    fn size() -> (n: usize) {
        400
    }

    fn from_bytes(bytes: &[u8]) -> (r: Self) {
        let r = utmp {
            ut_type: read_i16(bytes, 0),
            ut_pid: read_i32(bytes, 4),
            ut_line: read_bytes::<UT_LINESIZE>(bytes, 8),
            ut_id: read_bytes::<4>(bytes, 40),
            ut_user: read_bytes::<UT_NAMESIZE>(bytes, 44),
            ut_host: read_bytes::<UT_HOSTSIZE>(bytes, 76),
            ut_exit: exit_status {
                e_termination: read_i16(bytes, 332),
                e_exit: read_i16(bytes, 334),
            },
            ut_session: read_i64(bytes, 336),
            ut_tv: timeval { tv_sec: read_i64(bytes, 344), tv_usec: read_i64(bytes, 352) },
            ut_addr_v6: [
                read_i32(bytes, 360),
                read_i32(bytes, 364),
                read_i32(bytes, 368),
                read_i32(bytes, 372),
            ],
            __unused: read_bytes::<20>(bytes, 376),
        };
        assert(r.ut_addr_v6@ =~= le_i32x4_at(bytes@, 360));
        r
    }

    fn widen(&self) -> (w: utmp) {
        *self
    }
}

} // verus!
