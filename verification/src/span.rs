//! The cursor into source text that every recognizer consumes and returns.

use vstd::prelude::*;

verus! {

/// Where a position lands after reading `consumed`, starting at `line` and
/// `col`: a newline moves to the first column of the next line, any other
/// character moves one column to the right.
pub open spec fn pos_after(consumed: Seq<char>, line: int, col: int) -> (int, int)
    decreases consumed.len(),
{
    if consumed.len() == 0 {
        (line, col)
    } else if consumed[0] == '\n' {
        pos_after(consumed.skip(1), line + 1, 1)
    } else {
        pos_after(consumed.skip(1), line, col + 1)
    }
}

/// Reading text without a newline keeps the line and moves the column by
/// exactly the number of characters read.
pub proof fn lemma_pos_after_no_newline(consumed: Seq<char>, line: int, col: int)
    requires
        forall|i: int| 0 <= i < consumed.len() ==> consumed[i] != '\n',
    ensures
        pos_after(consumed, line, col) == (line, col + consumed.len()),
    decreases consumed.len(),
{
    if consumed.len() == 0 {
    } else {
        assert(forall|i: int|
            0 <= i < consumed.skip(1).len() ==> consumed.skip(1)[i] == consumed[i + 1]);
        lemma_pos_after_no_newline(consumed.skip(1), line, col + 1);
    }
}

/// An immutable view over the text still to be parsed, together with the
/// 1-based line and column of its first character.
#[derive(Debug)]
pub struct Span {
    /// The characters that remain to be parsed.
    pub chars: Vec<char>,
    /// 1-based line of the first remaining character.
    pub line: usize,
    /// 1-based column of the first remaining character.
    pub col: usize,
}

impl Span {
    /// The coordinates are 1-based, and far enough from the machine limit
    /// that advancing over the remaining text cannot overflow them.
    pub open spec fn wf(&self) -> bool {
        &&& 1 <= self.line
        &&& 1 <= self.col
        &&& self.line + self.chars@.len() <= usize::MAX
        &&& self.col + self.chars@.len() <= usize::MAX
    }

    /// A span at the start of `chars`: line 1, column 1.
    pub fn new(chars: Vec<char>) -> (s: Span)
        requires
            chars@.len() + 1 <= usize::MAX,
        ensures
            s.wf(),
            s.chars@ == chars@,
            s.line == 1,
            s.col == 1,
    {
        Span { chars, line: 1, col: 1 }
    }

    /// The span after consuming the first `n` remaining characters, its
    /// coordinates advanced over exactly those characters.
    pub fn advance(&self, n: usize) -> (s: Span)
        requires
            self.wf(),
            n <= self.chars@.len(),
        ensures
            s.wf(),
            s.chars@ == self.chars@.skip(n as int),
            s.line as int == pos_after(
                self.chars@.take(n as int),
                self.line as int,
                self.col as int,
            ).0,
            s.col as int == pos_after(
                self.chars@.take(n as int),
                self.line as int,
                self.col as int,
            ).1,
    {
        let len = self.chars.len();
        let mut line = self.line;
        let mut col = self.col;
        let mut i: usize = 0;
        while i < n
            invariant
                i <= n,
                n <= len,
                len == self.chars@.len(),
                self.wf(),
                1 <= line,
                1 <= col,
                line + (len - i) <= usize::MAX,
                col + (len - i) <= usize::MAX,
                pos_after(self.chars@.take(n as int), self.line as int, self.col as int)
                    == pos_after(self.chars@.subrange(i as int, n as int), line as int, col as int),
            decreases n - i,
        {
            let c = self.chars[i];
            proof {
                assert(self.chars@.subrange(i as int, n as int)[0] == self.chars@[i as int]);
                assert(self.chars@.subrange(i as int, n as int).skip(1)
                    =~= self.chars@.subrange(i as int + 1, n as int));
            }
            if c == '\n' {
                line = line + 1;
                col = 1;
            } else {
                col = col + 1;
            }
            i = i + 1;
        }
        proof {
            assert(self.chars@.subrange(n as int, n as int).len() == 0);
        }
        let mut rest: Vec<char> = Vec::new();
        let mut j: usize = n;
        while j < len
            invariant
                n <= j <= len,
                len == self.chars@.len(),
                rest@ == self.chars@.subrange(n as int, j as int),
            decreases len - j,
        {
            rest.push(self.chars[j]);
            proof {
                assert(self.chars@.subrange(n as int, j as int).push(self.chars@[j as int])
                    =~= self.chars@.subrange(n as int, j as int + 1));
            }
            j = j + 1;
        }
        proof {
            assert(self.chars@.subrange(n as int, len as int) =~= self.chars@.skip(n as int));
        }
        Span { chars: rest, line, col }
    }
}

} // verus!
