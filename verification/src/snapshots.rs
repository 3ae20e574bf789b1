//! Crash snapshots: size-bounded LZ4 decompression and the names under
//! which snapshot files are listed.
use vstd::prelude::*;
use crate::text::{chars_of, decimal, push_decimal, push_str_chars, split_chars, split_on, string_from_chars};

verus! {

/// Hard upper bound on a decompressed snapshot payload. Anything larger is
/// treated as a decompression bomb and rejected before allocation.
pub const MAX_DECOMPRESSED_SIZE: usize = 256 * 1024 * 1024;

/// The little-endian `u32` in the first four bytes.
pub open spec fn le_u32(b: Seq<u8>) -> nat {
    b[0] as nat + 256 * (b[1] as nat) + 65536 * (b[2] as nat) + 16777216 * (b[3] as nat)
}

/// What LZ4 block decompression yields for a size-prefixed buffer, if it
/// succeeds.
pub uninterp spec fn lz4_block_output(src: Seq<u8>) -> Option<Seq<u8>>;

/// The message lz4 gives when decompression itself fails.
pub open spec fn lz4_failed_text() -> Seq<char> {
    "Decompression failed. Input invalid or too long?"@
}

/// Calls `lz4::block::decompress(src, None)`, which reads the size prefix,
/// allocates that many bytes and decompresses into them, truncating to the
/// bytes written. What the decompression yields is left to the name
/// `lz4_block_output`; stated is that a result never exceeds the size the
/// prefix claims. An error is returned as its message: with a prefix that
/// is present and at most `MAX_DECOMPRESSED_SIZE`, the only error the crate
/// can raise is the one for a failed decompression (see `lz4_failed_text`).
#[verifier::external_body]
fn lz4_decompress(src: &[u8]) -> (r: Result<Vec<u8>, String>)
    requires
        src@.len() >= 4,
        le_u32(src@) <= MAX_DECOMPRESSED_SIZE,
    ensures
        r is Ok <==> lz4_block_output(src@) is Some,
        r matches Ok(v) ==> lz4_block_output(src@) == Some(v@) && v@.len() <= le_u32(src@),
        r matches Err(m) ==> m@ == lz4_failed_text(),
{
    match lz4::block::decompress(src, None) {
        Ok(v) => Ok(v),
        Err(e) => Err(e.to_string()),
    }
}

/// Why a snapshot payload was not decompressed.
#[derive(Debug)]
pub enum DecompressError {
    /// Fewer than four bytes: no size prefix.
    MissingSizePrefix,
    /// The prefix claims more than the bound.
    ExceedsLimit { claimed: usize, limit: usize },
    /// LZ4 rejected the payload; its message.
    Lz4(String),
}

impl DecompressError {
    /// The error's message.
    pub open spec fn message_text(&self) -> Seq<char> {
        match self {
            DecompressError::MissingSizePrefix => "lz4 payload missing size prefix"@,
            DecompressError::ExceedsLimit { claimed, limit } => "lz4 decompressed size "@ + decimal(
                *claimed as nat,
            ) + " exceeds limit "@ + decimal(*limit as nat),
            DecompressError::Lz4(m) => m@,
        }
    }

    /// The error's message, as `Display` would show it.
    pub fn message(&self) -> (r: String)
        ensures
            r@ == self.message_text(),
    {
        match self {
            DecompressError::MissingSizePrefix => String::from_str("lz4 payload missing size prefix"),
            DecompressError::ExceedsLimit { claimed, limit } => {
                let mut s = String::from_str("lz4 decompressed size ");
                push_decimal(&mut s, *claimed as u64);
                push_str_chars(&mut s, " exceeds limit ");
                push_decimal(&mut s, *limit as u64);
                s
            },
            DecompressError::Lz4(m) => m.clone(),
        }
    }
}

/// Decompresses a size-prefixed LZ4 block, refusing payloads without a
/// prefix and payloads whose prefix claims more than
/// `MAX_DECOMPRESSED_SIZE` bytes, before anything is allocated.
pub fn bounded_lz4_decompress(buf: &[u8]) -> (r: Result<Vec<u8>, DecompressError>)
    ensures
        buf@.len() < 4 ==> r matches Err(DecompressError::MissingSizePrefix),
        buf@.len() >= 4 && le_u32(buf@) > MAX_DECOMPRESSED_SIZE ==> (r matches Err(
            DecompressError::ExceedsLimit { claimed, limit },
        ) && claimed == le_u32(buf@) && limit == MAX_DECOMPRESSED_SIZE),
        buf@.len() >= 4 && le_u32(buf@) <= MAX_DECOMPRESSED_SIZE ==> {
            &&& r is Ok <==> lz4_block_output(buf@) is Some
            &&& r matches Ok(v) ==> lz4_block_output(buf@) == Some(v@)
            &&& r matches Err(e) ==> (e matches DecompressError::Lz4(m) && m@ == lz4_failed_text())
            &&& r matches Ok(v) ==> v@.len() <= le_u32(buf@)
        },
        r matches Ok(v) ==> v@.len() <= MAX_DECOMPRESSED_SIZE,
{
    if buf.len() < 4 {
        return Err(DecompressError::MissingSizePrefix);
    }
    let claimed_u64: u64 = buf[0] as u64 + 256 * (buf[1] as u64) + 65536 * (buf[2] as u64) + 16777216 * (
    buf[3] as u64);
    if claimed_u64 > MAX_DECOMPRESSED_SIZE as u64 {
        return Err(
            DecompressError::ExceedsLimit {
                claimed: claimed_u64 as usize,
                limit: MAX_DECOMPRESSED_SIZE,
            },
        );
    }
    match lz4_decompress(buf) {
        Ok(v) => Ok(v),
        Err(m) => Err(DecompressError::Lz4(m)),
    }
}

} // verus!

verus! {

/// A recorded event as stored in a snapshot.
#[derive(Debug)]
pub struct ResolvedEvent {
    /// Timestamp, level and thread id (see `LogEvent::pack_meta`).
    pub packed_meta: u64,
    pub message: String,
    pub target: String,
    /// The event's key/value payload bytes.
    pub kv: Option<Vec<u8>>,
    pub file: String,
    pub position: (u32, u32),
}

impl Clone for ResolvedEvent {
    fn clone(&self) -> (r: Self)
        ensures
            r.packed_meta == self.packed_meta,
            r.message == self.message,
            r.target == self.target,
            match (r.kv, self.kv) {
                (Some(a), Some(b)) => a@ == b@,
                (None, None) => true,
                _ => false,
            },
            r.file == self.file,
            r.position == self.position,
    {
        let kv = match &self.kv {
            Some(b) => Some(b.clone()),
            None => None,
        };
        ResolvedEvent {
            packed_meta: self.packed_meta,
            message: self.message.clone(),
            target: self.target.clone(),
            kv,
            file: self.file.clone(),
            position: self.position,
        }
    }
}

/// The events of one snapshot.
#[derive(Debug, Clone)]
pub struct SnapShot {
    pub events: Vec<ResolvedEvent>,
}

/// A snapshot file and its decoded contents.
#[derive(Debug, Clone)]
pub struct SnapshotFile {
    pub name: String,
    pub path: String,
    pub create_at: String,
    pub data: SnapShot,
}

/// The name and creation stamp of the snapshot stored at `path`:
/// `path` without `./tmp/` and `.bin`, and the third `-`-separated part of
/// the path without `./tmp/`. `None` where the path lacks the directory
/// prefix, has fewer than three parts, or lacks the `.bin` suffix.
pub open spec fn snapshot_entry(path: Seq<char>) -> Option<(Seq<char>, Seq<char>)> {
    let dir = "./tmp/"@;
    if !crate::text::starts_with(path, dir) {
        None
    } else {
        let rest = path.skip(dir.len() as int);
        let parts = split_on(rest, '-');
        if parts.len() < 3 {
            None
        } else if !crate::text::ends_with(rest, ".bin"@) {
            None
        } else {
            Some((rest.take(rest.len() - 4), parts[2]))
        }
    }
}

pub struct Snapshots;

impl Snapshots {
    /// Snapshot files are the directory entries named `ttlog-…`.
    pub fn is_snapshot_file(file_name: &str) -> (r: bool)
        ensures
            r == crate::text::starts_with(file_name@, "ttlog-"@),
    {
        crate::text::has_prefix(&chars_of(file_name), &chars_of("ttlog-"))
    }

    /// The listed name and creation stamp of the snapshot at `path` (see
    /// `snapshot_entry`).
    pub fn entry_names(path: &str) -> (r: Option<(String, String)>)
        ensures
            r is Some <==> snapshot_entry(path@) is Some,
            r matches Some(p) ==> snapshot_entry(path@) == Some((p.0@, p.1@)),
    {
        let p = chars_of(path);
        let dir = chars_of("./tmp/");
        if !crate::text::has_prefix(&p, &dir) {
            return None;
        }
        let rest = crate::text::chars_between(&p, dir.len(), p.len());
        assert(rest@ =~= path@.skip(dir@.len() as int));
        let parts = split_chars(&rest, '-');
        assert(parts@.len() == split_on(rest@, '-').len());
        if parts.len() < 3 {
            return None;
        }
        let bin = chars_of(".bin");
        if !crate::text::has_suffix(&rest, &bin) {
            return None;
        }
        proof {
            reveal_strlit(".bin");
        }
        let name = crate::text::chars_between(&rest, 0, rest.len() - 4);
        assert(name@ =~= rest@.take(rest@.len() - 4));
        assert(parts@[2]@ == split_on(rest@, '-')[2]);
        Some((string_from_chars(&name), string_from_chars(&parts[2])))
    }
}

} // verus!
