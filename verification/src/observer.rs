//! The success observer: a side channel that records each recognized
//! operator and its position, without ever touching the parse outcome.

use vstd::prelude::*;

use crate::bin_op::{count_spaces, recognize, recognizes, ws_count};
use crate::error::ParseError;
use crate::op::{BinOp, Tier};
use crate::span::Span;

verus! {

/// One recorded success: the recognized operator and the 1-based position
/// of its first character (past any leading whitespace).
#[derive(Clone, Copy, Debug, PartialEq, Eq)]
pub struct Observation {
    /// The operator that was recognized.
    pub op: BinOp,
    /// 1-based line where its spelling starts.
    pub line: usize,
    /// 1-based column where its spelling starts.
    pub col: usize,
}

/// Runs tier `t` on `input` exactly as [`recognize`] does, and appends one
/// [`Observation`] to `log` when and only when the recognizer succeeds.
/// The outcome is the recognizer's own, untouched by the observation.
pub fn recognize_observed(input: &Span, t: Tier, log: &mut Vec<Observation>) -> (r: Result<
    (Span, BinOp),
    ParseError,
>)
    requires
        input.wf(),
    ensures
        recognizes(*input, t, r),
        r matches Ok(p) ==> final(log)@ == old(log)@.push(
            (Observation {
                op: p.1,
                line: input.line,
                col: (input.col + ws_count(input.chars@)) as usize,
            }),
        ),
        r matches Err(_) ==> final(log)@ == old(log)@,
{
    let r = recognize(input, t);
    match &r {
        Ok(p) => {
            let w = count_spaces(&input.chars, 0);
            proof {
                assert(input.chars@.skip(0) =~= input.chars@);
            }
            log.push(Observation { op: p.1, line: input.line, col: input.col + w });
        },
        Err(_) => {},
    }
    r
}

} // verus!
