//! Position-tagged parse failures and the context-label wrapper.

use vstd::prelude::*;

use crate::op::BinOp;
use crate::span::Span;

verus! {

/// A recognizer failure: the 1-based position of the deepest failure and an
/// ordered stack of human-readable context labels, outermost first.
/// Attaching a label never rewrites the position.
#[derive(Debug)]
pub struct ParseError {
    /// 1-based line of the failure.
    pub line: usize,
    /// 1-based column of the failure.
    pub col: usize,
    /// Context labels, outermost first.
    pub labels: Vec<&'static str>,
}

impl ParseError {
    /// A bare failure at the given position, with no context label yet.
    pub fn at(line: usize, col: usize) -> (e: ParseError)
        ensures
            e.line == line,
            e.col == col,
            e.labels@ == Seq::<&'static str>::empty(),
    {
        ParseError { line, col, labels: Vec::new() }
    }
}

/// Wraps a recognizer outcome with a context label: transparent on success,
/// and on failure pushes `label` outermost while keeping the failure
/// position and every deeper label.
pub fn with_context(label: &'static str, r: Result<(Span, BinOp), ParseError>) -> (out: Result<
    (Span, BinOp),
    ParseError,
>)
    ensures
        r matches Ok(p) ==> out matches Ok(q) && q == p,
        r matches Err(e) ==> out matches Err(e2) && e2.line == e.line && e2.col == e.col
            && e2.labels@ == seq![label] + e.labels@,
{
    match r {
        Ok(p) => Ok(p),
        Err(e) => {
            let mut labels: Vec<&'static str> = Vec::new();
            labels.push(label);
            let mut i: usize = 0;
            while i < e.labels.len()
                invariant
                    i <= e.labels@.len(),
                    labels@ == seq![label] + e.labels@.take(i as int),
                decreases e.labels@.len() - i,
            {
                labels.push(e.labels[i]);
                proof {
                    assert((seq![label] + e.labels@.take(i as int)).push(e.labels@[i as int])
                        =~= seq![label] + e.labels@.take(i as int + 1));
                }
                i = i + 1;
            }
            proof {
                assert(e.labels@.take(e.labels@.len() as int) =~= e.labels@);
            }
            Err(ParseError { line: e.line, col: e.col, labels })
        },
    }
}

} // verus!
