//! The log directory summary and the resolved log records the viewer shows.
use vstd::prelude::*;
use crate::event::LogLevel;
use crate::text::{
    boundary_index, byte_len, byte_offset_index, chars_eq, chars_of, ends_with, has_suffix, is_boundary,
    lemma_boundary_index_unique, lemma_byte_len_take_mono, push_chars, split_chars, split_on, string_from_chars,
    byte_slice,
};
use crate::utils::{size_text, Utils};

verus! {

/// The text of an optional `String`.
pub open spec fn opt_text(o: Option<String>) -> Option<Seq<char>> {
    match o {
        Some(s) => Some(s@),
        None => None,
    }
}

pub open spec fn ttlog_word() -> Seq<char> {
    seq!['t', 't', 'l', 'o', 'g']
}

/// The process id in a snapshot or log file name
/// `ttlog-{PID}-{TIMESTAMP}-{SUFFIX}.{EXT}`: the second `-`-separated part
/// when the first is `ttlog`.
pub open spec fn name_process_id(name: Seq<char>) -> Option<Seq<char>> {
    let p = split_on(name, '-');
    if p.len() >= 2 && p[0] == ttlog_word() {
        Some(p[1])
    } else {
        None
    }
}

/// The third part is cut at UTF-8 byte offsets 4, 6, 8, 10 and 12 when it
/// is 14 bytes long; those offsets must fall on character boundaries.
pub open spec fn name_timestamp_cuttable(name: Seq<char>) -> bool {
    let p = split_on(name, '-');
    p.len() >= 3 && byte_len(p[2]) == 14 ==> {
        &&& is_boundary(p[2], 4)
        &&& is_boundary(p[2], 6)
        &&& is_boundary(p[2], 8)
        &&& is_boundary(p[2], 10)
        &&& is_boundary(p[2], 12)
    }
}

/// `YYYYMMDDHHMMSS` rewritten as `YYYY-MM-DD HH:MM:SS`.
pub open spec fn spread_compact_stamp(t: Seq<char>) -> Seq<char> {
    byte_slice(t, 0, 4) + seq!['-'] + byte_slice(t, 4, 6) + seq!['-'] + byte_slice(t, 6, 8) + seq![' ']
        + byte_slice(t, 8, 10) + seq![':'] + byte_slice(t, 10, 12) + seq![':'] + byte_slice(t, 12, 14)
}

/// The timestamp in a file name: its third `-`-separated part, when that
/// part is 14 bytes long, spread out as a date and a time.
pub open spec fn name_timestamp(name: Seq<char>) -> Option<Seq<char>> {
    let p = split_on(name, '-');
    if p.len() >= 3 && byte_len(p[2]) == 14 {
        Some(spread_compact_stamp(p[2]))
    } else {
        None
    }
}

fn ttlog_chars() -> (v: Vec<char>)
    ensures
        v@ == ttlog_word(),
{
    proof {
        reveal_strlit("ttlog");
    }
    chars_of("ttlog")
}

fn slice_at(t: &Vec<char>, from: usize, to: usize) -> (r: Vec<char>)
    requires
        from <= to <= t.len(),
    ensures
        r@ == t@.subrange(from as int, to as int),
{
    let mut r: Vec<char> = Vec::new();
    for i in from..to
        invariant
            from <= to <= t.len(),
            r@ == t@.subrange(from as int, i as int),
    {
        r.push(t[i]);
        assert(t@.subrange(from as int, i + 1) =~= t@.subrange(from as int, i as int).push(t@[i as int]));
    }
    r
}

proof fn lemma_boundary_bounds(t: Seq<char>, a: int, b: int)
    requires
        is_boundary(t, a),
        is_boundary(t, b),
        a <= b,
    ensures
        0 <= boundary_index(t, a) <= boundary_index(t, b) <= t.len(),
{
    let i = boundary_index(t, a);
    let j = boundary_index(t, b);
    if j < i {
        lemma_byte_len_take_mono(t, j, i);
    }
}

fn spread_stamp(t: &Vec<char>) -> (r: String)
    requires
        is_boundary(t@, 0),
        is_boundary(t@, 4),
        is_boundary(t@, 6),
        is_boundary(t@, 8),
        is_boundary(t@, 10),
        is_boundary(t@, 12),
        is_boundary(t@, 14),
    ensures
        r@ == spread_compact_stamp(t@),
{
    let i0 = byte_offset_index(t, 0).unwrap();
    let i4 = byte_offset_index(t, 4).unwrap();
    let i6 = byte_offset_index(t, 6).unwrap();
    let i8 = byte_offset_index(t, 8).unwrap();
    let i10 = byte_offset_index(t, 10).unwrap();
    let i12 = byte_offset_index(t, 12).unwrap();
    let i14 = byte_offset_index(t, 14).unwrap();
    proof {
        lemma_boundary_bounds(t@, 0, 4);
        lemma_boundary_bounds(t@, 4, 6);
        lemma_boundary_bounds(t@, 6, 8);
        lemma_boundary_bounds(t@, 8, 10);
        lemma_boundary_bounds(t@, 10, 12);
        lemma_boundary_bounds(t@, 12, 14);
    }
    let mut r = String::new();
    push_chars(&mut r, &slice_at(t, i0, i4));
    r.push('-');
    push_chars(&mut r, &slice_at(t, i4, i6));
    r.push('-');
    push_chars(&mut r, &slice_at(t, i6, i8));
    r.push(' ');
    push_chars(&mut r, &slice_at(t, i8, i10));
    r.push(':');
    push_chars(&mut r, &slice_at(t, i10, i12));
    r.push(':');
    push_chars(&mut r, &slice_at(t, i12, i14));
    assert(r@ =~= spread_compact_stamp(t@));
    r
}

/// Extracts the timestamp and the process id from a file name of the form
/// `ttlog-{PID}-{TIMESTAMP}-{SUFFIX}.{EXT}`, such as
/// `ttlog-1580331-20251007215735-flush_and_exit.bin`.
pub fn extract_metadata(filename: &str) -> (r: (Option<String>, Option<String>))
    requires
        name_timestamp_cuttable(filename@),
    ensures
        opt_text(r.0) == name_timestamp(filename@),
        opt_text(r.1) == name_process_id(filename@),
{
    let chars = chars_of(filename);
    let parts = split_chars(&chars, '-');
    let ghost p = split_on(filename@, '-');
    assert(parts@.len() == p.len());
    let process_id = if parts.len() >= 2 && chars_eq(&parts[0], &ttlog_chars()) {
        assert(parts@[1]@ == p[1]);
        Some(string_from_chars(&parts[1]))
    } else {
        proof {
            if parts.len() >= 2 {
                assert(parts@[0]@ == p[0]);
            }
        }
        None
    };
    let timestamp = if parts.len() >= 3 {
        let t = &parts[2];
        assert(t@ == p[2]);
        match byte_offset_index(t, 14) {
            Some(n) if n == t.len() => {
                proof {
                    assert(t@.take(n as int) =~= t@);
                    assert(t@.take(0) =~= Seq::<char>::empty());
                    lemma_boundary_index_unique(t@, 0, 0);
                }
                Some(spread_stamp(t))
            },
            _ => {
                proof {
                    assert(t@.take(t.len() as int) =~= t@);
                    if byte_len(t@) == 14 {
                        lemma_boundary_index_unique(t@, t.len() as int, 14);
                    }
                }
                None
            },
        }
    } else {
        None
    };
    (timestamp, process_id)
}

} // verus!

verus! {

/// A log record ready for display.
#[derive(Debug)]
pub struct ResolvedLog {
    pub level: LogLevel,
    /// `YYYY-MM-DD HH:MM:SS.mmm`
    pub timestamp: String,
    pub thread_id: u8,
    pub message: String,
    pub target: String,
    /// The record's key/value pairs as JSON text.
    pub kv: String,
    pub file: String,
    pub position: (u32, u32),
}

impl Clone for ResolvedLog {
    fn clone(&self) -> (r: Self)
        ensures
            r == *self,
    {
        ResolvedLog {
            level: self.level,
            timestamp: self.timestamp.clone(),
            thread_id: self.thread_id,
            message: self.message.clone(),
            target: self.target.clone(),
            kv: self.kv.clone(),
            file: self.file.clone(),
            position: self.position,
        }
    }
}

/// A log line as written to a `.log` file.
#[derive(Debug)]
pub struct LogFileEvent {
    pub file: String,
    /// The key/value pairs as JSON text.
    pub kv: String,
    pub level: u8,
    pub message: String,
    pub position: (u32, u32),
    pub target: String,
    pub thread_id: u8,
    /// Milliseconds since the epoch.
    pub timestamp: u64,
}

impl LogFileEvent {
    /// The displayable record for this line: its level code read as a level
    /// and its timestamp formatted as UTC date and time.
    pub fn resolve(self) -> (r: ResolvedLog)
        ensures
            r.level == crate::event::level_of_code(self.level),
            r.timestamp@ == crate::utils::timestamp_text(self.timestamp),
            r.thread_id == self.thread_id,
            r.message == self.message,
            r.target == self.target,
            r.kv == self.kv,
            r.file == self.file,
            r.position == self.position,
    {
        ResolvedLog {
            level: LogLevel::from_u8(&self.level),
            timestamp: crate::utils::Utils::format_timestamp(self.timestamp),
            thread_id: self.thread_id,
            message: self.message,
            target: self.target,
            kv: self.kv,
            file: self.file,
            position: self.position,
        }
    }
}

} // verus!

verus! {

/// One file found under the log directory.
#[derive(Debug, Clone)]
pub struct FileInfo {
    pub name: String,
    pub size: u64,
    pub size_formatted: String,
    pub timestamp: Option<String>,
    pub process_id: Option<String>,
    pub line_count: Option<usize>,
    pub event_count: Option<usize>,
}

/// The `.bin` snapshot files of the directory.
#[derive(Debug, Clone)]
pub struct BinFilesInfo {
    pub count: usize,
    pub total_size: u64,
    pub total_size_formatted: String,
    pub min_size: Option<u64>,
    pub min_size_formatted: Option<String>,
    pub max_size: Option<u64>,
    pub max_size_formatted: Option<String>,
    pub avg_size: u64,
    pub avg_size_formatted: String,
    pub files: Vec<FileInfo>,
}

/// The `.log` files of the directory.
#[derive(Debug, Clone)]
pub struct LogFilesInfo {
    pub count: usize,
    pub total_size: u64,
    pub total_size_formatted: String,
    pub total_lines: usize,
    pub total_events: usize,
    pub files: Vec<FileInfo>,
}

/// The summary of a log directory.
#[derive(Debug, Clone)]
pub struct LogsInfo {
    pub total_size: u64,
    pub total_size_formatted: String,
    pub total_files: usize,
    pub bin_files: BinFilesInfo,
    pub log_files: LogFilesInfo,
    pub directory_path: String,
}

pub open spec fn dot_log() -> Seq<char> {
    seq!['.', 'l', 'o', 'g']
}

pub open spec fn dot_bin() -> Seq<char> {
    seq!['.', 'b', 'i', 'n']
}

/// The line and event counts of `.log` files, as far as the file could be
/// read; none for other files.
pub open spec fn kept_counts(name: Seq<char>, counts: Option<(usize, usize)>) -> Option<(usize, usize)> {
    if ends_with(name, dot_log()) {
        counts
    } else {
        None
    }
}

/// `info` describes the file `name` of `size` bytes.
pub open spec fn describes(info: FileInfo, name: Seq<char>, size: u64, counts: Option<(usize, usize)>) -> bool {
    &&& info.name@ == name
    &&& info.size == size
    &&& info.size_formatted@ == size_text(size as nat)
    &&& opt_text(info.timestamp) == name_timestamp(name)
    &&& opt_text(info.process_id) == name_process_id(name)
    &&& info.line_count == (match kept_counts(name, counts) {
        Some(c) => Some(c.0),
        None => None,
    })
    &&& info.event_count == (match kept_counts(name, counts) {
        Some(c) => Some(c.1),
        None => None,
    })
}

/// The sum of the files' sizes.
pub open spec fn size_sum(files: Seq<FileInfo>) -> nat
    decreases files.len(),
{
    if files.len() == 0 {
        0
    } else {
        size_sum(files.drop_last()) + files.last().size as nat
    }
}

/// The smallest of the files' sizes.
pub open spec fn size_min(files: Seq<FileInfo>) -> Option<u64>
    decreases files.len(),
{
    if files.len() == 0 {
        None
    } else {
        match size_min(files.drop_last()) {
            Some(m) => Some(if files.last().size < m { files.last().size } else { m }),
            None => Some(files.last().size),
        }
    }
}

/// The largest of the files' sizes.
pub open spec fn size_max(files: Seq<FileInfo>) -> Option<u64>
    decreases files.len(),
{
    if files.len() == 0 {
        None
    } else {
        match size_max(files.drop_last()) {
            Some(m) => Some(if files.last().size > m { files.last().size } else { m }),
            None => Some(files.last().size),
        }
    }
}

pub open spec fn opt_size_text(s: Option<u64>) -> Option<Seq<char>> {
    match s {
        Some(n) => Some(size_text(n as nat)),
        None => None,
    }
}

fn dot_log_chars() -> (v: Vec<char>)
    ensures
        v@ == dot_log(),
{
    proof {
        reveal_strlit(".log");
    }
    chars_of(".log")
}

fn dot_bin_chars() -> (v: Vec<char>)
    ensures
        v@ == dot_bin(),
{
    proof {
        reveal_strlit(".bin");
    }
    chars_of(".bin")
}

impl FileInfo {
    /// The entry for the file `name` of `size` bytes; `counts` holds the
    /// line and event counts of a `.log` file that could be read.
    pub fn describe(name: String, size: u64, counts: Option<(usize, usize)>) -> (r: FileInfo)
        requires
            name_timestamp_cuttable(name@),
        ensures
            describes(r, name@, size, counts),
    {
        let (timestamp, process_id) = extract_metadata(name.as_str());
        let is_log = has_suffix(&chars_of(name.as_str()), &dot_log_chars());
        let (line_count, event_count) = if is_log {
            match counts {
                Some((l, e)) => (Some(l), Some(e)),
                None => (None, None),
            }
        } else {
            (None, None)
        };
        FileInfo {
            name,
            size,
            size_formatted: Utils::format_size(size),
            timestamp,
            process_id,
            line_count,
            event_count,
        }
    }
}

/// What a walk over the log directory has gathered so far.
pub struct DirTally {
    pub total_size: u64,
    pub total_files: usize,
    pub bin_files: Vec<FileInfo>,
    pub log_files: Vec<FileInfo>,
    pub total_lines: usize,
    pub total_events: usize,
}

impl DirTally {
    /// The sizes of the listed files are part of the total size.
    pub open spec fn wf(&self) -> bool {
        size_sum(self.bin_files@) + size_sum(self.log_files@) <= self.total_size
    }

    /// Nothing gathered yet.
    pub fn new() -> (r: Self)
        ensures
            r.wf(),
            r.total_size == 0,
            r.total_files == 0,
            r.bin_files@ == Seq::<FileInfo>::empty(),
            r.log_files@ == Seq::<FileInfo>::empty(),
            r.total_lines == 0,
            r.total_events == 0,
    {
        DirTally {
            total_size: 0,
            total_files: 0,
            bin_files: Vec::new(),
            log_files: Vec::new(),
            total_lines: 0,
            total_events: 0,
        }
    }

    /// Takes in a regular file: its size counts toward the total, a `.log`
    /// file's line and event counts (when it could be read) toward theirs,
    /// and a `.bin` or `.log` file is listed with its kind.
    pub fn record_file(&mut self, name: String, size: u64, counts: Option<(usize, usize)>)
        requires
            old(self).wf(),
            old(self).total_size + size <= u64::MAX,
            old(self).total_files < usize::MAX,
            kept_counts(name@, counts) matches Some(c) ==> old(self).total_lines + c.0 <= usize::MAX
                && old(self).total_events + c.1 <= usize::MAX,
            name_timestamp_cuttable(name@),
        ensures
            final(self).wf(),
            final(self).total_size == old(self).total_size + size,
            final(self).total_files == old(self).total_files + 1,
            final(self).total_lines == old(self).total_lines + (match kept_counts(name@, counts) {
                Some(c) => c.0 as int,
                None => 0,
            }),
            final(self).total_events == old(self).total_events + (match kept_counts(name@, counts) {
                Some(c) => c.1 as int,
                None => 0,
            }),
            ends_with(name@, dot_bin()) ==> {
                &&& final(self).bin_files@.len() == old(self).bin_files@.len() + 1
                &&& final(self).bin_files@.drop_last() == old(self).bin_files@
                &&& describes(final(self).bin_files@.last(), name@, size, counts)
                &&& final(self).log_files@ == old(self).log_files@
            },
            !ends_with(name@, dot_bin()) && ends_with(name@, dot_log()) ==> {
                &&& final(self).log_files@.len() == old(self).log_files@.len() + 1
                &&& final(self).log_files@.drop_last() == old(self).log_files@
                &&& describes(final(self).log_files@.last(), name@, size, counts)
                &&& final(self).bin_files@ == old(self).bin_files@
            },
            !ends_with(name@, dot_bin()) && !ends_with(name@, dot_log()) ==> {
                &&& final(self).bin_files@ == old(self).bin_files@
                &&& final(self).log_files@ == old(self).log_files@
            },
    {
        self.total_size = self.total_size + size;
        self.total_files = self.total_files + 1;
        let chars = chars_of(name.as_str());
        let is_log = has_suffix(&chars, &dot_log_chars());
        let is_bin = has_suffix(&chars, &dot_bin_chars());
        if is_log {
            if let Some((l, e)) = counts {
                self.total_lines = self.total_lines + l;
                self.total_events = self.total_events + e;
            }
        }
        let info = FileInfo::describe(name, size, counts);
        if is_bin {
            let ghost before = self.bin_files@;
            self.bin_files.push(info);
            assert(self.bin_files@.drop_last() =~= before);
        } else if is_log {
            let ghost before = self.log_files@;
            self.log_files.push(info);
            assert(self.log_files@.drop_last() =~= before);
        }
    }
}

} // verus!

verus! {

/// Sum, smallest and largest size of the files.
fn size_stats(files: &Vec<FileInfo>) -> (r: (u64, Option<u64>, Option<u64>))
    requires
        size_sum(files@) <= u64::MAX,
    ensures
        r.0 == size_sum(files@),
        r.1 == size_min(files@),
        r.2 == size_max(files@),
{
    let mut sum: u64 = 0;
    let mut min: Option<u64> = None;
    let mut max: Option<u64> = None;
    for i in 0..files.len()
        invariant
            size_sum(files@) <= u64::MAX,
            sum == size_sum(files@.take(i as int)),
            min == size_min(files@.take(i as int)),
            max == size_max(files@.take(i as int)),
    {
        proof {
            assert(files@.take(i + 1).drop_last() =~= files@.take(i as int));
            lemma_size_sum_prefix(files@, i + 1);
        }
        let s = files[i].size;
        sum = sum + s;
        min = match min {
            Some(m) => Some(if s < m { s } else { m }),
            None => Some(s),
        };
        max = match max {
            Some(m) => Some(if s > m { s } else { m }),
            None => Some(s),
        };
    }
    assert(files@.take(files.len() as int) =~= files@);
    (sum, min, max)
}

proof fn lemma_size_sum_prefix(files: Seq<FileInfo>, i: int)
    requires
        0 <= i <= files.len(),
    ensures
        size_sum(files.take(i)) <= size_sum(files),
    decreases files.len() - i,
{
    if i < files.len() {
        lemma_size_sum_prefix(files, i + 1);
        assert(files.take(i + 1).drop_last() =~= files.take(i));
    } else {
        assert(files.take(i) =~= files);
    }
}

fn format_opt_size(s: Option<u64>) -> (r: Option<String>)
    ensures
        opt_text(r) == opt_size_text(s),
{
    match s {
        Some(n) => Some(Utils::format_size(n)),
        None => None,
    }
}

/// The directory summary built from what the walk gathered: totals, the
/// `.bin` files' smallest, largest and average size (integer average, 0
/// without files), each size also written out by `format_size`.
pub fn logs_info_from_tally(tally: DirTally, path: String) -> (r: LogsInfo)
    requires
        tally.wf(),
    ensures
        r.total_size == tally.total_size,
        r.total_size_formatted@ == size_text(tally.total_size as nat),
        r.total_files == tally.total_files,
        r.directory_path == path,
        r.bin_files.count == tally.bin_files@.len(),
        r.bin_files.total_size == size_sum(tally.bin_files@),
        r.bin_files.total_size_formatted@ == size_text(size_sum(tally.bin_files@)),
        r.bin_files.min_size == size_min(tally.bin_files@),
        opt_text(r.bin_files.min_size_formatted) == opt_size_text(size_min(tally.bin_files@)),
        r.bin_files.max_size == size_max(tally.bin_files@),
        opt_text(r.bin_files.max_size_formatted) == opt_size_text(size_max(tally.bin_files@)),
        r.bin_files.avg_size == (if tally.bin_files@.len() > 0 {
            size_sum(tally.bin_files@) / tally.bin_files@.len()
        } else {
            0
        }),
        r.bin_files.avg_size_formatted@ == size_text(r.bin_files.avg_size as nat),
        r.bin_files.files@ == tally.bin_files@,
        r.log_files.count == tally.log_files@.len(),
        r.log_files.total_size == size_sum(tally.log_files@),
        r.log_files.total_size_formatted@ == size_text(size_sum(tally.log_files@)),
        r.log_files.total_lines == tally.total_lines,
        r.log_files.total_events == tally.total_events,
        r.log_files.files@ == tally.log_files@,
{
    let (bin_total, bin_min, bin_max) = size_stats(&tally.bin_files);
    let (log_total, _, _) = size_stats(&tally.log_files);
    let bin_count = tally.bin_files.len();
    let bin_avg: u64 = if bin_count > 0 {
        bin_total / (bin_count as u64)
    } else {
        0
    };
    let log_count = tally.log_files.len();
    LogsInfo {
        total_size: tally.total_size,
        total_size_formatted: Utils::format_size(tally.total_size),
        total_files: tally.total_files,
        bin_files: BinFilesInfo {
            count: bin_count,
            total_size: bin_total,
            total_size_formatted: Utils::format_size(bin_total),
            min_size: bin_min,
            min_size_formatted: format_opt_size(bin_min),
            max_size: bin_max,
            max_size_formatted: format_opt_size(bin_max),
            avg_size: bin_avg,
            avg_size_formatted: Utils::format_size(bin_avg),
            files: tally.bin_files,
        },
        log_files: LogFilesInfo {
            count: log_count,
            total_size: log_total,
            total_size_formatted: Utils::format_size(log_total),
            total_lines: tally.total_lines,
            total_events: tally.total_events,
            files: tally.log_files,
        },
        directory_path: path,
    }
}

/// The summary shown when the log directory could not be read: nothing
/// counted, sizes written `0 B`, for the directory `./tmp`.
pub fn create_empty_logs_info() -> (r: LogsInfo)
    ensures
        r.total_size == 0,
        r.total_size_formatted@ == "0 B"@,
        r.total_files == 0,
        r.bin_files.count == 0,
        r.bin_files.total_size == 0,
        r.bin_files.total_size_formatted@ == "0 B"@,
        r.bin_files.min_size is None,
        r.bin_files.min_size_formatted is None,
        r.bin_files.max_size is None,
        r.bin_files.max_size_formatted is None,
        r.bin_files.avg_size == 0,
        r.bin_files.avg_size_formatted@ == "0 B"@,
        r.bin_files.files@ == Seq::<FileInfo>::empty(),
        r.log_files.count == 0,
        r.log_files.total_size == 0,
        r.log_files.total_size_formatted@ == "0 B"@,
        r.log_files.total_lines == 0,
        r.log_files.total_events == 0,
        r.log_files.files@ == Seq::<FileInfo>::empty(),
        r.directory_path@ == "./tmp"@,
{
    LogsInfo {
        total_size: 0,
        total_size_formatted: String::from_str("0 B"),
        total_files: 0,
        bin_files: BinFilesInfo {
            count: 0,
            total_size: 0,
            total_size_formatted: String::from_str("0 B"),
            min_size: None,
            min_size_formatted: None,
            max_size: None,
            max_size_formatted: None,
            avg_size: 0,
            avg_size_formatted: String::from_str("0 B"),
            files: Vec::new(),
        },
        log_files: LogFilesInfo {
            count: 0,
            total_size: 0,
            total_size_formatted: String::from_str("0 B"),
            total_lines: 0,
            total_events: 0,
            files: Vec::new(),
        },
        directory_path: String::from_str("./tmp"),
    }
}

/// A character with the Unicode `White_Space` property, which is what
/// `str::trim` removes.
pub open spec fn is_white(c: char) -> bool {
    let u = c as u32;
    ||| 0x09 <= u <= 0x0D
    ||| u == 0x20
    ||| u == 0x85
    ||| u == 0xA0
    ||| u == 0x1680
    ||| 0x2000 <= u <= 0x200A
    ||| u == 0x2028
    ||| u == 0x2029
    ||| u == 0x202F
    ||| u == 0x205F
    ||| u == 0x3000
}

/// A line is blank when nothing but white space is left after trimming.
pub open spec fn is_blank(line: Seq<char>) -> bool {
    forall|i: int| 0 <= i < line.len() ==> is_white(#[trigger] line[i])
}

fn is_white_exec(c: char) -> (r: bool)
    ensures
        r == is_white(c),
{
    let u = c as u32;
    (0x09 <= u && u <= 0x0D) || u == 0x20 || u == 0x85 || u == 0xA0 || u == 0x1680 || (0x2000 <= u && u
        <= 0x200A) || u == 0x2028 || u == 0x2029 || u == 0x202F || u == 0x205F || u == 0x3000
}

/// Whether the line holds nothing but white space.
pub fn line_is_blank(line: &str) -> (r: bool)
    ensures
        r == is_blank(line@),
{
    let chars = chars_of(line);
    for i in 0..chars.len()
        invariant
            chars@ == line@,
            forall|j: int| 0 <= j < i ==> is_white(#[trigger] chars@[j]),
    {
        if !is_white_exec(chars[i]) {
            return false;
        }
    }
    true
}

/// The line and event counts of a `.log` file being read.
#[derive(Debug, Clone, Copy, PartialEq, Eq, Structural)]
pub struct LineTally {
    pub lines: usize,
    pub events: usize,
}

impl LineTally {
    pub fn new() -> (r: Self)
        ensures
            r.lines == 0,
            r.events == 0,
    {
        LineTally { lines: 0, events: 0 }
    }

    /// Takes in one line: every line counts, and a line that is not blank
    /// counts as an event when it `parses` as a log record.
    pub fn record_line(&mut self, line: &str, parses: bool)
        requires
            old(self).lines < usize::MAX,
            old(self).events < usize::MAX,
        ensures
            final(self).lines == old(self).lines + 1,
            final(self).events == old(self).events + (if !is_blank(line@) && parses {
                1int
            } else {
                0
            }),
            old(self).events <= old(self).lines ==> final(self).events <= final(self).lines,
    {
        self.lines = self.lines + 1;
        if line_is_blank(line) {
            return;
        }
        if parses {
            self.events = self.events + 1;
        }
    }
}

/// The directory's new modification time when it is later than the last
/// one seen (`current` is `None` when the time could not be read). Times
/// are nanoseconds from the Unix epoch.
pub fn check_directory_changes(current: Option<i128>, last_modified: i128) -> (r: Option<i128>)
    ensures
        r == (match current {
            Some(c) => if c > last_modified {
                Some(c)
            } else {
                None
            },
            None => None,
        }),
{
    if let Some(c) = current {
        if c > last_modified {
            return Some(c);
        }
    }
    None
}

} // verus!

verus! {

proof fn lemma_min_max_bounds(files: Seq<FileInfo>)
    requires
        files.len() > 0,
    ensures
        size_min(files) matches Some(lo) && size_max(files) matches Some(hi) && lo * files.len() <= size_sum(files)
            <= hi * files.len() && lo <= hi,
    decreases files.len(),
{
    let rest = files.drop_last();
    let x = files.last().size;
    let len = files.len();
    if rest.len() > 0 {
        lemma_min_max_bounds(rest);
        let lo = size_min(rest)->0;
        let hi = size_max(rest)->0;
        let n = rest.len();
        let lo2 = if x < lo { x } else { lo };
        let hi2 = if x > hi { x } else { hi };
        assert(size_min(files) == Some(lo2));
        assert(size_max(files) == Some(hi2));
        assert(size_sum(files) == size_sum(rest) + x);
        assert(len == n + 1);
        assert(lo2 * len <= size_sum(rest) + x) by (nonlinear_arith)
            requires
                lo * n <= size_sum(rest),
                lo2 <= lo,
                lo2 <= x,
                lo2 >= 0,
                n >= 0,
                len == n + 1,
        ;
        assert(size_sum(rest) + x <= hi2 * len) by (nonlinear_arith)
            requires
                size_sum(rest) <= hi * n,
                hi <= hi2,
                x <= hi2,
                n >= 0,
                len == n + 1,
        ;
    } else {
        assert(size_min(rest) is None);
        assert(size_max(rest) is None);
        assert(size_sum(rest) == 0);
        assert(size_min(files) == Some(x));
        assert(size_max(files) == Some(x));
        assert(size_sum(files) == x);
        assert(len == 1);
    }
}

/// The average size of the `.bin` files lies between the smallest and the
/// largest size.
pub proof fn lemma_bin_average_between(tally: DirTally)
    requires
        tally.bin_files@.len() > 0,
    ensures
        size_min(tally.bin_files@) matches Some(lo) && size_max(tally.bin_files@) matches Some(hi) && lo
            <= size_sum(tally.bin_files@) / tally.bin_files@.len() <= hi,
{
    let files = tally.bin_files@;
    lemma_min_max_bounds(files);
    let lo = size_min(files)->0;
    let hi = size_max(files)->0;
    let n = files.len();
    let s = size_sum(files);
    assert(lo <= s / n) by (nonlinear_arith)
        requires
            lo * n <= s,
            n > 0,
            lo >= 0,
    {
        vstd::arithmetic::div_mod::lemma_div_is_ordered(lo * n, s as int, n as int);
        vstd::arithmetic::div_mod::lemma_div_multiples_vanish(lo as int, n as int);
    }
    assert(s / n <= hi) by (nonlinear_arith)
        requires
            s <= hi * n,
            n > 0,
    {
        vstd::arithmetic::div_mod::lemma_div_is_ordered(s as int, hi * n, n as int);
        vstd::arithmetic::div_mod::lemma_div_multiples_vanish(hi as int, n as int);
    }
}

} // verus!

verus! {

/// Whether the file name can be cut where `extract_metadata` cuts it (see
/// `name_timestamp_cuttable`).
pub fn name_timestamp_cuttable_exec(name: &str) -> (r: bool)
    ensures
        r == name_timestamp_cuttable(name@),
{
    let chars = chars_of(name);
    let parts = split_chars(&chars, '-');
    let ghost p = split_on(name@, '-');
    assert(parts@.len() == p.len());
    if parts.len() < 3 {
        return true;
    }
    let t = &parts[2];
    assert(t@ == p[2]);
    match byte_offset_index(t, 14) {
        Some(n) if n == t.len() => {
            assert(t@.take(n as int) =~= t@);
            let ok = byte_offset_index(t, 4).is_some() && byte_offset_index(t, 6).is_some() && byte_offset_index(
                t,
                8,
            ).is_some() && byte_offset_index(t, 10).is_some() && byte_offset_index(t, 12).is_some();
            ok
        },
        _ => {
            proof {
                assert(t@.take(t.len() as int) =~= t@);
                if byte_len(t@) == 14 {
                    lemma_boundary_index_unique(t@, t.len() as int, 14);
                }
            }
            true
        },
    }
}

} // verus!
