//! Reading ffmpeg's `-progress` output and its error tail.
use crate::text::{
    contains, find_char_in, parse_u64, parse_u64_in, split_once, str_contains, to_chars, trim,
    trim_bounds_in,
};
use vstd::prelude::*;

verus! {

/// The fields of one `-progress` block that the supervisor reads: the
/// frame count (liveness) and the output time in microseconds (speed).
#[derive(Debug, Clone, Copy, PartialEq, Eq, Structural)]
pub struct ProgressBlock {
    pub frame: Option<u64>,
    pub out_time_us: Option<u64>,
}

impl Default for ProgressBlock {
    fn default() -> (r: Self)
        ensures
            r == empty_block(),
    {
        ProgressBlock { frame: None, out_time_us: None }
    }
}

/// A block with no field read yet.
pub open spec fn empty_block() -> ProgressBlock {
    ProgressBlock { frame: None, out_time_us: None }
}

/// Accumulates `key=value` lines into blocks; each `progress=` line
/// closes the current block.
pub struct ProgressParser {
    pending: ProgressBlock,
}

impl Default for ProgressParser {
    fn default() -> (r: Self)
        ensures
            r.pending_block() == empty_block(),
    {
        ProgressParser { pending: ProgressBlock { frame: None, out_time_us: None } }
    }
}

/// The effect of one line on the pending block and what it returns:
/// `frame=` and `out_time_us=` replace that field with the parsed value
/// (or none), `progress=` returns the pending block and starts an empty
/// one, any other line (or one without `=`) changes nothing.
pub open spec fn feed_step(pending: ProgressBlock, line: Seq<char>) -> (ProgressBlock, Option<
    ProgressBlock,
>) {
    match split_once(line, '=') {
        Some((key, value)) => if key == "frame"@ {
            (ProgressBlock { frame: parse_u64(trim(value)), ..pending }, None)
        } else if key == "out_time_us"@ {
            (ProgressBlock { out_time_us: parse_u64(trim(value)), ..pending }, None)
        } else if key == "progress"@ {
            (empty_block(), Some(pending))
        } else {
            (pending, None)
        },
        None => (pending, None),
    }
}

impl ProgressParser {
    /// The fields read so far in the unfinished block.
    pub closed spec fn pending_block(self) -> ProgressBlock {
        self.pending
    }

    /// Feeds one line; returns the finished block on a `progress=` line.
    pub fn feed(&mut self, line: &str) -> (r: Option<ProgressBlock>)
        ensures
            (final(self).pending_block(), r) == feed_step(old(self).pending_block(), line@),
    {
        let v = to_chars(line);
        let eq = match find_char_in(v.as_slice(), '=') {
            Some(i) => i,
            None => return None,
        };
        let (vb, ve) = trim_bounds_in(v.as_slice(), eq + 1, v.len());
        let key = crate::text::from_chars(v.as_slice(), 0, eq);
        if crate::text::str_eq(key.as_str(), "frame") {
            self.pending.frame = parse_u64_in(v.as_slice(), vb, ve);
            None
        } else if crate::text::str_eq(key.as_str(), "out_time_us") {
            self.pending.out_time_us = parse_u64_in(v.as_slice(), vb, ve);
            None
        } else if crate::text::str_eq(key.as_str(), "progress") {
            let block = self.pending;
            self.pending = ProgressBlock { frame: None, out_time_us: None };
            Some(block)
        } else {
            None
        }
    }
}

/// Error lines that mean the hardware encoder itself is unusable, as
/// opposed to a network or muxer failure.
pub open spec fn hw_failure_marker(line: Seq<char>) -> bool {
    contains(line, "No capable devices found"@) || contains(line, "OpenEncodeSessionEx failed"@)
        || contains(line, "Cannot load nvcuda"@) || contains(line, "Cannot load nvEncodeAPI"@)
        || contains(line, "amfrt64.dll"@) || contains(line, "AMFCreateContext"@)
}

fn line_is_hw_failure(l: &str) -> (r: bool)
    ensures
        r == hw_failure_marker(l@),
{
    str_contains(l, "No capable devices found") || str_contains(l, "OpenEncodeSessionEx failed")
        || str_contains(l, "Cannot load nvcuda") || str_contains(l, "Cannot load nvEncodeAPI")
        || str_contains(l, "amfrt64.dll") || str_contains(l, "AMFCreateContext")
}

/// Whether ffmpeg's stderr tail shows that the hardware encoder failed.
pub fn hw_encoder_failed(tail: &[String]) -> (r: bool)
    ensures
        r == exists|i: int| 0 <= i < tail@.len() && hw_failure_marker(#[trigger] tail@[i]@),
{
    let mut i: usize = 0;
    while i < tail.len()
        invariant
            i <= tail@.len(),
            forall|j: int| 0 <= j < i ==> !hw_failure_marker(#[trigger] tail@[j]@),
        decreases tail@.len() - i,
    {
        if line_is_hw_failure(tail[i].as_str()) {
            return true;
        }
        i = i + 1;
    }
    false
}

} // verus!
