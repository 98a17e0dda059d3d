//! Long bracketed comments: skipped outright, up to the closing bracket of
//! the same nesting level.

use vstd::prelude::*;

use super::error::Error;
use super::long_literal::closes_at;
use super::long_literal::exec_closes_at;

verus! {

/// The position just past the first closing bracket of exactly `level`
/// equals at or after `i`, if any.
pub open spec fn long_comment_spec(src: Seq<u8>, i: int, level: int) -> Option<int>
    decreases src.len() - i,
{
    if i < 0 || i >= src.len() {
        None
    } else if closes_at(src, i, level) {
        Some(i + level + 2)
    } else {
        long_comment_spec(src, i + 1, level)
    }
}

/// Skips a long bracketed comment's body starting just past the opening
/// bracket, yielding the position past the closing bracket of the same
/// level.
pub fn callback(source: &[u8], start: usize, level: usize) -> (r: Result<usize, Error>)
    requires
        start <= source@.len(),
        level < source@.len(),
    ensures
        match long_comment_spec(source@, start as int, level as int) {
            Some(end) => r == Ok::<usize, Error>(end as usize) && r->Ok_0 == end,
            None => r == Err::<usize, Error>(Error::UnclosedLongComment),
        },
        r matches Ok(end) ==> start < end <= source@.len(),
{
    let n = source.len();
    let mut i = start;
    loop
        invariant
            n == source@.len(),
            level < source@.len(),
            start <= i <= source@.len(),
            long_comment_spec(source@, start as int, level as int) == long_comment_spec(
                source@,
                i as int,
                level as int,
            ),
        decreases source@.len() - i,
    {
        if i >= n {
            return Err(Error::UnclosedLongComment);
        }
        if exec_closes_at(source, i, level) {
            return Ok(i + level + 2);
        }
        i += 1;
    }
}

} // verus!
