//! Resource limits handed to the case runner.  A problem's memory limit
//! is configured as a human-readable size string ("512 MiB"); it is
//! resolved into a byte count here, falling back to a default when the
//! string cannot be understood.

use vstd::prelude::*;

verus! {

/// Memory limit used when the configured string does not parse:
/// 512 MiB.
pub const DEFAULT_MEMORY_LIMIT_BYTES: u64 = 536_870_912;

/// What `bytesize`'s string parser makes of a size string: the byte
/// count, or nothing for a malformed string.
pub uninterp spec fn byte_size_of(s: Seq<char>) -> Option<u64>;

/// Relies on `bytesize::ByteSize`'s `FromStr`: parses a human-readable
/// size such as `"512 MiB"` or `"1GB"` into its byte count.
#[verifier::external_body]
fn parse_byte_size(s: &str) -> (r: Option<u64>)
    ensures
        r == byte_size_of(s@),
{
    s.parse::<bytesize::ByteSize>().ok().map(|b| b.as_u64())
}

/// Resolves a configured memory-limit string to bytes, defaulting to
/// 512 MiB when the string is malformed (the application logs a warning
/// in that case).
pub fn resolve_memory_limit(limit: &str) -> (r: u64)
    ensures
        r == match byte_size_of(limit@) {
            Some(b) => b,
            None => DEFAULT_MEMORY_LIMIT_BYTES,
        },
{
    match parse_byte_size(limit) {
        Some(b) => b,
        None => DEFAULT_MEMORY_LIMIT_BYTES,
    }
}

/// True when the configured memory-limit string was understood; the
/// application uses this to decide whether to warn.
pub fn memory_limit_known(limit: &str) -> (r: bool)
    ensures
        r == (byte_size_of(limit@) is Some),
{
    parse_byte_size(limit).is_some()
}

} // verus!
