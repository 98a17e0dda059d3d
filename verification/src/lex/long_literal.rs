//! Long bracketed literals: `[=*[ … ]=*]` with matching nesting level; line
//! endings inside the body normalize to a single newline byte.

use vstd::prelude::*;

use super::error::Error;
use super::short_string::scan_prepend;
use super::short_string::StringScan;

verus! {

/// Does a closing long bracket of exactly `level` equals stand at `i`?
pub open spec fn closes_at(src: Seq<u8>, i: int, level: int) -> bool {
    &&& 0 <= i
    &&& i + level + 1 < src.len()
    &&& src[i] == 0x5d
    &&& src[i + level + 1] == 0x5d
    &&& forall|k: int| i < k < i + level + 1 ==> src[k] == 0x3d
}

/// What a long bracketed body starting at `i` holds, up to the first closing
/// bracket of the right level: bytes kept as they are, except that each line
/// ending becomes one newline byte.
pub open spec fn long_literal_spec(src: Seq<u8>, i: int, level: int) -> StringScan
    decreases src.len() - i,
{
    if i < 0 || i >= src.len() {
        StringScan::Fail { kind: Error::UnclosedLongLiteral }
    } else if closes_at(src, i, level) {
        StringScan::Done { contents: Seq::empty(), end: i + level + 2 }
    } else if src[i] == 0x0d {
        if i + 1 < src.len() && src[i + 1] == 0x0a {
            scan_prepend(seq![10u8], long_literal_spec(src, i + 2, level))
        } else {
            scan_prepend(seq![10u8], long_literal_spec(src, i + 1, level))
        }
    } else if src[i] == 0x0a {
        if i + 1 < src.len() && src[i + 1] == 0x0d {
            scan_prepend(seq![10u8], long_literal_spec(src, i + 2, level))
        } else {
            scan_prepend(seq![10u8], long_literal_spec(src, i + 1, level))
        }
    } else {
        scan_prepend(seq![src[i]], long_literal_spec(src, i + 1, level))
    }
}

/// Does a closing long bracket of exactly `level` equals stand at `i`?
pub(crate) fn exec_closes_at(source: &[u8], i: usize, level: usize) -> (r: bool)
    requires
        i < source@.len(),
        level < source@.len(),
    ensures
        r == closes_at(source@, i as int, level as int),
{
    let n = source.len();
    if source[i] != 0x5d {
        return false;
    }
    if n - i <= level + 1 {
        assert(!(i + level + 1 < source@.len()));
        return false;
    }
    if source[i + level + 1] != 0x5d {
        return false;
    }
    let mut k: usize = 1;
    while k < level + 1
        invariant
            n == source@.len(),
            i < source@.len(),
            level < source@.len(),
            1 <= k <= level + 1,
            i + level + 1 < source@.len(),
            forall|j: int| i < j < i + k ==> source@[j] == 0x3d,
        decreases level + 1 - k,
    {
        if source[i + k] != 0x3d {
            return false;
        }
        k += 1;
    }
    true
}

spec fn gathered_so_far(top: StringScan, acc: Seq<u8>, cur: StringScan) -> bool {
    match cur {
        StringScan::Done { contents, end } => top == (StringScan::Done {
            contents: acc + contents,
            end,
        }),
        StringScan::Fail { kind } => top == (StringScan::Fail { kind }),
    }
}

proof fn lemma_gathered_step(top: StringScan, acc: Seq<u8>, bytes: Seq<u8>, rest: StringScan)
    requires
        gathered_so_far(top, acc, scan_prepend(bytes, rest)),
    ensures
        gathered_so_far(top, acc + bytes, rest),
{
    match rest {
        StringScan::Done { contents, end } => {
            assert((acc + bytes) + contents =~= acc + (bytes + contents));
        },
        StringScan::Fail { kind } => {},
    }
}

/// Gathers a long bracketed literal's body starting just past the opening
/// bracket, yielding its bytes (line endings normalized) and the position
/// past the closing bracket of the same level.
pub fn callback(source: &[u8], start: usize, level: usize) -> (r: Result<(Vec<u8>, usize), Error>)
    requires
        start <= source@.len(),
        level < source@.len(),
    ensures
        match long_literal_spec(source@, start as int, level as int) {
            StringScan::Done { contents, end } => {
                &&& r is Ok
                &&& r->Ok_0.0@ == contents
                &&& r->Ok_0.1 == end
            },
            StringScan::Fail { kind } => r == Err::<(Vec<u8>, usize), Error>(kind),
        },
        r matches Ok(p) ==> start < p.1 <= source@.len(),
{
    let ghost top = long_literal_spec(source@, start as int, level as int);
    let n = source.len();
    let mut acc: Vec<u8> = Vec::new();
    let mut i = start;
    loop
        invariant
            n == source@.len(),
            level < source@.len(),
            start <= i <= source@.len(),
            top == long_literal_spec(source@, start as int, level as int),
            gathered_so_far(top, acc@, long_literal_spec(source@, i as int, level as int)),
        decreases source@.len() - i,
    {
        if i >= n {
            return Err(Error::UnclosedLongLiteral);
        }
        let b = source[i];
        if exec_closes_at(source, i, level) {
            proof {
                assert(acc@ + Seq::<u8>::empty() =~= acc@);
            }
            return Ok((acc, i + level + 2));
        }
        if b == 0x0d || b == 0x0a {
            let other: u8 = if b == 0x0d {
                0x0a
            } else {
                0x0d
            };
            let step: usize = if i + 1 < n && source[i + 1] == other {
                2
            } else {
                1
            };
            proof {
                lemma_gathered_step(
                    top,
                    acc@,
                    seq![10u8],
                    long_literal_spec(source@, i + step, level as int),
                );
                assert(acc@.push(10u8) =~= acc@ + seq![10u8]);
            }
            acc.push(10);
            i += step;
            continue;
        }
        proof {
            lemma_gathered_step(
                top,
                acc@,
                seq![b],
                long_literal_spec(source@, i + 1, level as int),
            );
            assert(acc@.push(b) =~= acc@ + seq![b]);
        }
        acc.push(b);
        i += 1;
    }
}

} // verus!
