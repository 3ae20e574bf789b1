//! Settings of the high-throughput logging setup and the size texts of the
//! memory benchmark.
use vstd::prelude::*;
use crate::numfmt::{f64_value, f64_value_of, push_two_decimals, two_decimals};
use crate::text::push_str_chars;

verus! {

/// High-throughput logger settings.
#[derive(Debug, Clone, Copy, PartialEq, Eq, Structural)]
pub struct PerformanceConfig {
    /// Ring buffer capacity (more memory, fewer drops).
    pub buffer_capacity: usize,
    /// Queue capacity between the layer and the writer.
    pub channel_capacity: usize,
    /// Batch events for throughput.
    pub use_batching: bool,
    /// Raise the writer thread's priority.
    pub high_priority_writer: bool,
    /// Seconds between periodic flushes.
    pub flush_interval_secs: u64,
}

impl Default for PerformanceConfig {
    /// 64K events, 8K queued messages, batching, a high-priority writer and
    /// a flush every 30 seconds.
    fn default() -> (r: Self)
        ensures
            r == (PerformanceConfig {
                buffer_capacity: 65536,
                channel_capacity: 8192,
                use_batching: true,
                high_priority_writer: true,
                flush_interval_secs: 30,
            }),
    {
        PerformanceConfig {
            buffer_capacity: 65536,
            channel_capacity: 8192,
            use_batching: true,
            high_priority_writer: true,
            flush_interval_secs: 30,
        }
    }
}

impl PerformanceConfig {
    /// The maximum-throughput settings: 128K events, 16K queued messages,
    /// batching, a high-priority writer, a flush every 15 seconds.
    pub fn maximum_performance() -> (r: Self)
        ensures
            r == (PerformanceConfig {
                buffer_capacity: 131072,
                channel_capacity: 16384,
                use_batching: true,
                high_priority_writer: true,
                flush_interval_secs: 15,
            }),
    {
        PerformanceConfig {
            buffer_capacity: 131072,
            channel_capacity: 16384,
            use_batching: true,
            high_priority_writer: true,
            flush_interval_secs: 15,
        }
    }

    /// The memory-saving settings: 8K events, 1K queued messages, no
    /// batching, an ordinary writer, a flush every 120 seconds.
    pub fn memory_optimized() -> (r: Self)
        ensures
            r == (PerformanceConfig {
                buffer_capacity: 8192,
                channel_capacity: 1024,
                use_batching: false,
                high_priority_writer: false,
                flush_interval_secs: 120,
            }),
    {
        PerformanceConfig {
            buffer_capacity: 8192,
            channel_capacity: 1024,
            use_batching: false,
            high_priority_writer: false,
            flush_interval_secs: 120,
        }
    }
}

/// The unit a byte count is shown in: the largest of B, KB, MB and GB
/// (powers of 1024) that the count, as an `f64`, reaches.
pub open spec fn bytes_unit(v: nat) -> nat {
    if v >= 1024 * 1024 * 1024 {
        3
    } else if v >= 1024 * 1024 {
        2
    } else if v >= 1024 {
        1
    } else {
        0
    }
}

pub open spec fn unit_size(k: nat) -> nat {
    if k == 3 {
        1024 * 1024 * 1024
    } else if k == 2 {
        1024 * 1024
    } else if k == 1 {
        1024
    } else {
        1
    }
}

pub open spec fn unit_name(k: nat) -> Seq<char> {
    if k == 3 {
        "GB"@
    } else if k == 2 {
        "MB"@
    } else if k == 1 {
        "KB"@
    } else {
        "B"@
    }
}

/// The size text of the memory benchmark: the count with two decimals in
/// its unit, a space and the unit.
pub open spec fn bytes_text(bytes: nat) -> Seq<char> {
    let v = f64_value(bytes);
    let k = bytes_unit(v);
    two_decimals(v, unit_size(k)) + " "@ + unit_name(k)
}

/// Measures the memory use of logging.
pub struct MemoryEfficiencyTester {
    pub test_duration: std::time::Duration,
}

impl MemoryEfficiencyTester {
    pub fn new(test_duration: std::time::Duration) -> (r: Self)
        ensures
            r.test_duration == test_duration,
    {
        MemoryEfficiencyTester { test_duration }
    }

    /// A byte count in B, KB, MB or GB with two decimals (see `bytes_text`).
    pub fn format_bytes(bytes: usize) -> (r: String)
        ensures
            r@ == bytes_text(bytes as nat),
    {
        let v = f64_value_of(bytes as u64);
        let mut unit: u128 = 1;
        let mut k: usize = 0;
        while v >= unit * 1024 && k < 3
            invariant
                v == f64_value(bytes as nat),
                k <= 3,
                unit == unit_size(k as nat),
                k > 0 ==> v >= unit,
                forall|j: nat| j <= k ==> #[trigger] unit_size(j) <= v || j == 0,
            decreases 3 - k,
        {
            unit = unit * 1024;
            k = k + 1;
        }
        let mut s = String::new();
        push_two_decimals(&mut s, v, unit);
        push_str_chars(&mut s, " ");
        let name = if k == 3 {
            "GB"
        } else if k == 2 {
            "MB"
        } else if k == 1 {
            "KB"
        } else {
            "B"
        };
        push_str_chars(&mut s, name);
        s
    }
}

} // verus!
