//! Log levels and the packed metadata word that every recorded event
//! carries: the timestamp in milliseconds above bit 12, the level in bits
//! 8..12 and the thread id in the low byte.
use vstd::prelude::*;

verus! {

/// Severity of a log event, from the least to the most severe.
#[allow(non_camel_case_types)]
#[derive(Debug, Clone, Copy, PartialEq, Eq, Structural)]
pub enum LogLevel {
    TRACE,
    DEBUG,
    INFO,
    WARN,
    ERROR,
    FATAL,
}

/// The numeric code of a level, as stored in the packed metadata and used
/// for ordering by severity.
pub open spec fn level_code(level: LogLevel) -> u8 {
    match level {
        LogLevel::TRACE => 0,
        LogLevel::DEBUG => 1,
        LogLevel::INFO => 2,
        LogLevel::WARN => 3,
        LogLevel::ERROR => 4,
        LogLevel::FATAL => 5,
    }
}

/// The level a numeric code stands for; codes above 5 are read as `INFO`.
pub open spec fn level_of_code(code: u8) -> LogLevel {
    if code == 0 {
        LogLevel::TRACE
    } else if code == 1 {
        LogLevel::DEBUG
    } else if code == 2 {
        LogLevel::INFO
    } else if code == 3 {
        LogLevel::WARN
    } else if code == 4 {
        LogLevel::ERROR
    } else if code == 5 {
        LogLevel::FATAL
    } else {
        LogLevel::INFO
    }
}

/// The upper-case name of a level.
pub open spec fn level_text(level: LogLevel) -> Seq<char> {
    match level {
        LogLevel::TRACE => seq!['T', 'R', 'A', 'C', 'E'],
        LogLevel::DEBUG => seq!['D', 'E', 'B', 'U', 'G'],
        LogLevel::INFO => seq!['I', 'N', 'F', 'O'],
        LogLevel::WARN => seq!['W', 'A', 'R', 'N'],
        LogLevel::ERROR => seq!['E', 'R', 'R', 'O', 'R'],
        LogLevel::FATAL => seq!['F', 'A', 'T', 'A', 'L'],
    }
}

impl LogLevel {
    /// The numeric code of this level.
    pub fn as_u8(self) -> (r: u8)
        ensures
            r == level_code(self),
    {
        match self {
            LogLevel::TRACE => 0,
            LogLevel::DEBUG => 1,
            LogLevel::INFO => 2,
            LogLevel::WARN => 3,
            LogLevel::ERROR => 4,
            LogLevel::FATAL => 5,
        }
    }

    /// The level for a numeric code.
    pub fn from_u8(code: &u8) -> (r: LogLevel)
        ensures
            r == level_of_code(*code),
    {
        match *code {
            0 => LogLevel::TRACE,
            1 => LogLevel::DEBUG,
            2 => LogLevel::INFO,
            3 => LogLevel::WARN,
            4 => LogLevel::ERROR,
            5 => LogLevel::FATAL,
            _ => LogLevel::INFO,
        }
    }

    /// The upper-case name of this level.
    pub fn as_str(&self) -> (r: &'static str)
        ensures
            r@ == level_text(*self),
    {
        proof {
            reveal_strlit("TRACE");
            reveal_strlit("DEBUG");
            reveal_strlit("INFO");
            reveal_strlit("WARN");
            reveal_strlit("ERROR");
            reveal_strlit("FATAL");
        }
        match self {
            LogLevel::TRACE => "TRACE",
            LogLevel::DEBUG => "DEBUG",
            LogLevel::INFO => "INFO",
            LogLevel::WARN => "WARN",
            LogLevel::ERROR => "ERROR",
            LogLevel::FATAL => "FATAL",
        }
    }
}

pub proof fn lemma_level_code_roundtrip(level: LogLevel)
    ensures
        level_of_code(level_code(level)) == level,
{
}

/// The packed metadata word for a timestamp, a level and a thread id.
pub open spec fn packed_meta(ts_ms: u64, level: LogLevel, thread_id: u8) -> u64 {
    ((ts_ms << 12u64) | ((level_code(level) as u64) << 8u64) | (thread_id as u64)) as u64
}

/// The recorded events' metadata word.
pub struct LogEvent;

impl LogEvent {
    /// Packs a timestamp (milliseconds), a level and a thread id into one word.
    pub fn pack_meta(ts_ms: u64, level: LogLevel, thread_id: u8) -> (r: u64)
        ensures
            r == packed_meta(ts_ms, level, thread_id),
    {
        let code: u64 = level.as_u8() as u64;
        let tid: u64 = thread_id as u64;
        (ts_ms << 12u64) | (code << 8u64) | tid
    }

    /// Splits a metadata word into its timestamp (milliseconds), level code
    /// and thread id.
    pub fn unpack_meta(meta: u64) -> (r: (u64, u8, u8))
        ensures
            r.0 == meta >> 12u64,
            r.1 == (meta >> 8u64) & 0xFu64,
            r.2 == meta & 0xFFu64,
    {
        let ts = meta >> 12u64;
        let lvl: u64 = (meta >> 8u64) & 0xFu64;
        let tid: u64 = meta & 0xFFu64;
        assert(lvl < 16) by (bit_vector)
            requires
                lvl == (meta >> 8u64) & 0xFu64,
        ;
        assert(tid < 256) by (bit_vector)
            requires
                tid == meta & 0xFFu64,
        ;
        (ts, lvl as u8, tid as u8)
    }
}

/// Unpacking a packed word gives back the timestamp, level and thread id
/// that were packed, for timestamps below 2^52 milliseconds.
pub proof fn lemma_pack_unpack(ts_ms: u64, level: LogLevel, thread_id: u8)
    requires
        ts_ms < 0x10_0000_0000_0000u64,
    ensures
        packed_meta(ts_ms, level, thread_id) >> 12u64 == ts_ms,
        (packed_meta(ts_ms, level, thread_id) >> 8u64) & 0xFu64 == level_code(level) as u64,
        packed_meta(ts_ms, level, thread_id) & 0xFFu64 == thread_id as u64,
        level_of_code(((packed_meta(ts_ms, level, thread_id) >> 8u64) & 0xFu64) as u8) == level,
{
    let c: u64 = level_code(level) as u64;
    let t: u64 = thread_id as u64;
    assert(c < 16);
    assert(t < 256);
    assert(((ts_ms << 12u64) | (c << 8u64) | t) >> 12u64 == ts_ms
        && (((ts_ms << 12u64) | (c << 8u64) | t) >> 8u64) & 0xFu64 == c
        && ((ts_ms << 12u64) | (c << 8u64) | t) & 0xFFu64 == t) by (bit_vector)
        requires
            ts_ms < 0x10_0000_0000_0000u64,
            c < 16,
            t < 256,
    ;
}

} // verus!
