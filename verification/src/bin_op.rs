//! The five tier recognizers for binary operator tokens.
//!
//! Each recognizer skips horizontal whitespace, tries its tier's candidate
//! spellings in a fixed priority order, and on a match skips trailing
//! whitespace before returning the advanced span.  Single-character
//! spellings that are a prefix of a longer operator of another tier carry a
//! lookahead guard and refuse to match in front of that longer operator.

use vstd::prelude::*;

use crate::error::{with_context, ParseError};
use crate::op::{tier_label, tier_label_text, BinOp, Tier};
use crate::span::{lemma_pos_after_no_newline, Span};

verus! {

/// Horizontal whitespace: the characters discarded around an operator.
pub open spec fn is_space(c: char) -> bool {
    c == ' ' || c == '\t'
}

/// Length of the longest whitespace prefix of `s`.
pub open spec fn ws_count(s: Seq<char>) -> nat
    decreases s.len(),
{
    if s.len() > 0 && is_space(s[0]) {
        (1 + ws_count(s.skip(1))) as nat
    } else {
        0
    }
}

/// The whitespace prefix is no longer than the text and is made of
/// whitespace characters only.
pub proof fn lemma_ws_count_prefix(s: Seq<char>)
    ensures
        ws_count(s) <= s.len(),
        forall|i: int| 0 <= i < ws_count(s) ==> is_space(#[trigger] s[i]),
    decreases s.len(),
{
    if s.len() > 0 && is_space(s[0]) {
        lemma_ws_count_prefix(s.skip(1));
        assert forall|i: int| 0 <= i < ws_count(s) implies is_space(#[trigger] s[i]) by {
            if i > 0 {
                assert(is_space(s.skip(1)[i - 1]));
                assert(s.skip(1)[i - 1] == s[i]);
            }
        }
    }
}

/// Text that is whitespace throughout counts as whitespace whole.
pub proof fn lemma_ws_count_all(s: Seq<char>)
    requires
        forall|i: int| 0 <= i < s.len() ==> is_space(#[trigger] s[i]),
    ensures
        ws_count(s) == s.len(),
    decreases s.len(),
{
    if s.len() > 0 {
        assert(forall|i: int| 0 <= i < s.skip(1).len() ==> s.skip(1)[i] == s[i + 1]);
        lemma_ws_count_all(s.skip(1));
    }
}

/// Prepending whitespace lengthens the whitespace prefix by what was
/// prepended.
pub proof fn lemma_ws_count_concat(p: Seq<char>, s: Seq<char>)
    requires
        forall|i: int| 0 <= i < p.len() ==> is_space(#[trigger] p[i]),
    ensures
        ws_count(p + s) == p.len() + ws_count(s),
    decreases p.len(),
{
    if p.len() == 0 {
        assert(p + s =~= s);
    } else {
        assert((p + s)[0] == p[0]);
        assert((p + s).skip(1) =~= p.skip(1) + s);
        assert(forall|i: int| 0 <= i < p.skip(1).len() ==> p.skip(1)[i] == p[i + 1]);
        lemma_ws_count_concat(p.skip(1), s);
    }
}

/// The ordered candidate table of the logical tier, tried at the front of
/// `s`: `&&`, then `||`.  `Some((op, k))` names the matched operator and the
/// length `k` of its spelling.
pub open spec fn match_logical(s: Seq<char>) -> Option<(BinOp, int)> {
    if s.len() >= 2 && s[0] == '&' && s[1] == '&' {
        Some((BinOp::And, 2))
    } else if s.len() >= 2 && s[0] == '|' && s[1] == '|' {
        Some((BinOp::Or, 2))
    } else {
        None
    }
}

/// The ordered candidate table of the comparison tier: `<=`, `>=`, `<`, `>`,
/// `==`, `!=`.  The one-character spellings are guarded: `<` refuses to
/// match in front of another `<` (that text is the shift operator `<<`),
/// and `>` likewise in front of another `>`.
pub open spec fn match_comparison(s: Seq<char>) -> Option<(BinOp, int)> {
    if s.len() >= 2 && s[0] == '<' && s[1] == '=' {
        Some((BinOp::Lte, 2))
    } else if s.len() >= 2 && s[0] == '>' && s[1] == '=' {
        Some((BinOp::Gte, 2))
    } else if s.len() >= 1 && s[0] == '<' && !(s.len() >= 2 && s[1] == '<') {
        Some((BinOp::Lt, 1))
    } else if s.len() >= 1 && s[0] == '>' && !(s.len() >= 2 && s[1] == '>') {
        Some((BinOp::Gt, 1))
    } else if s.len() >= 2 && s[0] == '=' && s[1] == '=' {
        Some((BinOp::Eq, 2))
    } else if s.len() >= 2 && s[0] == '!' && s[1] == '=' {
        Some((BinOp::Neq, 2))
    } else {
        None
    }
}

/// The ordered candidate table of the bitwise/shift tier: `&`, `|`, `^`,
/// `>>`, `<<`.  Here `&` refuses to match in front of another `&` (that text
/// is the logical `&&`), and `|` likewise in front of another `|`.
pub open spec fn match_bitwise(s: Seq<char>) -> Option<(BinOp, int)> {
    if s.len() >= 1 && s[0] == '&' && !(s.len() >= 2 && s[1] == '&') {
        Some((BinOp::BitAnd, 1))
    } else if s.len() >= 1 && s[0] == '|' && !(s.len() >= 2 && s[1] == '|') {
        Some((BinOp::BitOr, 1))
    } else if s.len() >= 1 && s[0] == '^' {
        Some((BinOp::BitXor, 1))
    } else if s.len() >= 2 && s[0] == '>' && s[1] == '>' {
        Some((BinOp::Shr, 2))
    } else if s.len() >= 2 && s[0] == '<' && s[1] == '<' {
        Some((BinOp::Shl, 2))
    } else {
        None
    }
}

/// The ordered candidate table of the additive tier: `+`, `-`.
pub open spec fn match_additive(s: Seq<char>) -> Option<(BinOp, int)> {
    if s.len() >= 1 && s[0] == '+' {
        Some((BinOp::Add, 1))
    } else if s.len() >= 1 && s[0] == '-' {
        Some((BinOp::Sub, 1))
    } else {
        None
    }
}

/// The ordered candidate table of the multiplicative tier: `*`, `/`, `%`.
pub open spec fn match_multiplicative(s: Seq<char>) -> Option<(BinOp, int)> {
    if s.len() >= 1 && s[0] == '*' {
        Some((BinOp::Mul, 1))
    } else if s.len() >= 1 && s[0] == '/' {
        Some((BinOp::Div, 1))
    } else if s.len() >= 1 && s[0] == '%' {
        Some((BinOp::Rem, 1))
    } else {
        None
    }
}

/// The candidate table of tier `t`, tried at the front of `s`.
pub open spec fn tier_match(t: Tier, s: Seq<char>) -> Option<(BinOp, int)> {
    match t {
        Tier::Logical => match_logical(s),
        Tier::Comparison => match_comparison(s),
        Tier::Bitwise => match_bitwise(s),
        Tier::Additive => match_additive(s),
        Tier::Multiplicative => match_multiplicative(s),
    }
}

/// What a whole tier-recognizer call consumes from `s`: leading whitespace,
/// one candidate spelling of tier `t`, and trailing whitespace.  `None` when
/// no candidate matches after the leading whitespace.
pub open spec fn tier_consumed(t: Tier, s: Seq<char>) -> Option<(BinOp, int)> {
    let w = ws_count(s) as int;
    match tier_match(t, s.skip(w)) {
        Some((op, k)) => Some((op, w + k + ws_count(s.skip(w + k)) as int)),
        None => None,
    }
}

/// A matched spelling is at most as long as the text and contains no
/// newline.
pub proof fn lemma_tier_match_token(t: Tier, s: Seq<char>)
    ensures
        tier_match(t, s) matches Some((op, k)) ==> 0 < k <= s.len() && forall|i: int|
            0 <= i < k ==> s[i] != '\n',
{
}

/// What every tier recognizer returns, stated over the views.  On the inputs
/// where `tier_consumed` names an operator, the call succeeds with that
/// operator, consumes exactly that many characters, and moves the column by
/// the same amount (no consumed character is a newline).  On all other
/// inputs it fails with the tier's label at the first character past the
/// leading whitespace, and nothing is consumed.
pub open spec fn recognizes(input: Span, t: Tier, r: Result<(Span, BinOp), ParseError>) -> bool {
    match tier_consumed(t, input.chars@) {
        Some((op, n)) => match r {
            Ok(p) => {
                &&& p.1 == op
                &&& p.0.wf()
                &&& p.0.chars@ == input.chars@.skip(n)
                &&& p.0.line == input.line
                &&& p.0.col as int == input.col + n
            },
            Err(_) => false,
        },
        None => match r {
            Ok(_) => false,
            Err(e) => {
                &&& e.line == input.line
                &&& e.col as int == input.col + ws_count(input.chars@)
                &&& e.labels@.len() == 1
                &&& e.labels@[0]@ == tier_label(t)
            },
        },
    }
}

/// Number of whitespace characters at `from` in `chars`.
pub(crate) fn count_spaces(chars: &Vec<char>, from: usize) -> (n: usize)
    requires
        from <= chars@.len(),
    ensures
        from + n <= chars@.len(),
        n == ws_count(chars@.skip(from as int)),
{
    let len = chars.len();
    let mut i: usize = from;
    while i < len && (chars[i] == ' ' || chars[i] == '\t')
        invariant
            from <= i <= len,
            len == chars@.len(),
            ws_count(chars@.skip(from as int)) == (i - from) + ws_count(chars@.skip(i as int)),
        decreases len - i,
    {
        proof {
            assert(chars@.skip(i as int)[0] == chars@[i as int]);
            assert(chars@.skip(i as int).skip(1) =~= chars@.skip(i as int + 1));
        }
        i = i + 1;
    }
    i - from
}

/// Tries the logical tier's table at `at`.
fn match_logical_at(chars: &Vec<char>, at: usize) -> (r: Option<(BinOp, usize)>)
    requires
        at <= chars@.len(),
    ensures
        match r {
            Some(p) => tier_match(Tier::Logical, chars@.skip(at as int)) == Some(
                (p.0, p.1 as int),
            ) && at + p.1 <= chars@.len(),
            None => tier_match(Tier::Logical, chars@.skip(at as int)) is None,
        },
{
    proof {
        lemma_skip_index_facts(chars@, at as int);
    }
    let len = chars.len();
    if len - at >= 2 && chars[at] == '&' && chars[at + 1] == '&' {
        Some((BinOp::And, 2))
    } else if len - at >= 2 && chars[at] == '|' && chars[at + 1] == '|' {
        Some((BinOp::Or, 2))
    } else {
        None
    }
}

/// Tries the comparison tier's table at `at`.
fn match_comparison_at(chars: &Vec<char>, at: usize) -> (r: Option<(BinOp, usize)>)
    requires
        at <= chars@.len(),
    ensures
        match r {
            Some(p) => tier_match(Tier::Comparison, chars@.skip(at as int)) == Some(
                (p.0, p.1 as int),
            ) && at + p.1 <= chars@.len(),
            None => tier_match(Tier::Comparison, chars@.skip(at as int)) is None,
        },
{
    proof {
        lemma_skip_index_facts(chars@, at as int);
    }
    let len = chars.len();
    if len - at >= 2 && chars[at] == '<' && chars[at + 1] == '=' {
        Some((BinOp::Lte, 2))
    } else if len - at >= 2 && chars[at] == '>' && chars[at + 1] == '=' {
        Some((BinOp::Gte, 2))
    } else if len - at >= 1 && chars[at] == '<' && !(len - at >= 2 && chars[at + 1] == '<') {
        Some((BinOp::Lt, 1))
    } else if len - at >= 1 && chars[at] == '>' && !(len - at >= 2 && chars[at + 1] == '>') {
        Some((BinOp::Gt, 1))
    } else if len - at >= 2 && chars[at] == '=' && chars[at + 1] == '=' {
        Some((BinOp::Eq, 2))
    } else if len - at >= 2 && chars[at] == '!' && chars[at + 1] == '=' {
        Some((BinOp::Neq, 2))
    } else {
        None
    }
}

/// Tries the bitwise/shift tier's table at `at`.
fn match_bitwise_at(chars: &Vec<char>, at: usize) -> (r: Option<(BinOp, usize)>)
    requires
        at <= chars@.len(),
    ensures
        match r {
            Some(p) => tier_match(Tier::Bitwise, chars@.skip(at as int)) == Some(
                (p.0, p.1 as int),
            ) && at + p.1 <= chars@.len(),
            None => tier_match(Tier::Bitwise, chars@.skip(at as int)) is None,
        },
{
    proof {
        lemma_skip_index_facts(chars@, at as int);
    }
    let len = chars.len();
    if len - at >= 1 && chars[at] == '&' && !(len - at >= 2 && chars[at + 1] == '&') {
        Some((BinOp::BitAnd, 1))
    } else if len - at >= 1 && chars[at] == '|' && !(len - at >= 2 && chars[at + 1] == '|') {
        Some((BinOp::BitOr, 1))
    } else if len - at >= 1 && chars[at] == '^' {
        Some((BinOp::BitXor, 1))
    } else if len - at >= 2 && chars[at] == '>' && chars[at + 1] == '>' {
        Some((BinOp::Shr, 2))
    } else if len - at >= 2 && chars[at] == '<' && chars[at + 1] == '<' {
        Some((BinOp::Shl, 2))
    } else {
        None
    }
}

/// Tries the additive tier's table at `at`.
fn match_additive_at(chars: &Vec<char>, at: usize) -> (r: Option<(BinOp, usize)>)
    requires
        at <= chars@.len(),
    ensures
        match r {
            Some(p) => tier_match(Tier::Additive, chars@.skip(at as int)) == Some(
                (p.0, p.1 as int),
            ) && at + p.1 <= chars@.len(),
            None => tier_match(Tier::Additive, chars@.skip(at as int)) is None,
        },
{
    proof {
        lemma_skip_index_facts(chars@, at as int);
    }
    let len = chars.len();
    if len - at >= 1 && chars[at] == '+' {
        Some((BinOp::Add, 1))
    } else if len - at >= 1 && chars[at] == '-' {
        Some((BinOp::Sub, 1))
    } else {
        None
    }
}

/// Tries the multiplicative tier's table at `at`.
fn match_multiplicative_at(chars: &Vec<char>, at: usize) -> (r: Option<(BinOp, usize)>)
    requires
        at <= chars@.len(),
    ensures
        match r {
            Some(p) => tier_match(Tier::Multiplicative, chars@.skip(at as int)) == Some(
                (p.0, p.1 as int),
            ) && at + p.1 <= chars@.len(),
            None => tier_match(Tier::Multiplicative, chars@.skip(at as int)) is None,
        },
{
    proof {
        lemma_skip_index_facts(chars@, at as int);
    }
    let len = chars.len();
    if len - at >= 1 && chars[at] == '*' {
        Some((BinOp::Mul, 1))
    } else if len - at >= 1 && chars[at] == '/' {
        Some((BinOp::Div, 1))
    } else if len - at >= 1 && chars[at] == '%' {
        Some((BinOp::Rem, 1))
    } else {
        None
    }
}

/// How the first two characters of `s.skip(at)` relate to `s`.
proof fn lemma_skip_index_facts(s: Seq<char>, at: int)
    requires
        0 <= at <= s.len(),
    ensures
        s.skip(at).len() == s.len() - at,
        at < s.len() ==> s.skip(at)[0] == s[at],
        at + 1 < s.len() ==> s.skip(at)[1] == s[at + 1],
{
}

/// The shared body of the five tier recognizers: skip leading whitespace,
/// try tier `t`'s ordered candidate table, and on a match skip trailing
/// whitespace; on no match, fail at the first non-whitespace character with
/// the tier's label, consuming nothing.
pub fn recognize(input: &Span, t: Tier) -> (r: Result<(Span, BinOp), ParseError>)
    requires
        input.wf(),
    ensures
        recognizes(*input, t, r),
{
    let w = count_spaces(&input.chars, 0);
    proof {
        assert(input.chars@.skip(0) =~= input.chars@);
    }
    let m = match t {
        Tier::Logical => match_logical_at(&input.chars, w),
        Tier::Comparison => match_comparison_at(&input.chars, w),
        Tier::Bitwise => match_bitwise_at(&input.chars, w),
        Tier::Additive => match_additive_at(&input.chars, w),
        Tier::Multiplicative => match_multiplicative_at(&input.chars, w),
    };
    let inner: Result<(Span, BinOp), ParseError> = match m {
        Some((op, k)) => {
            let w2 = count_spaces(&input.chars, w + k);
            let n = w + k + w2;
            proof {
                lemma_consumed_no_newline(input.chars@, t, w as int, k as int, w2 as int);
                lemma_pos_after_no_newline(
                    input.chars@.take(n as int),
                    input.line as int,
                    input.col as int,
                );
            }
            let rest = input.advance(n);
            Ok((rest, op))
        },
        None => Err(ParseError::at(input.line, input.col + w)),
    };
    with_context(tier_label_text(t), inner)
}

/// Leading whitespace, a matched spelling of tier `t`, and trailing
/// whitespace: none of the consumed characters is a newline.
proof fn lemma_consumed_no_newline(s: Seq<char>, t: Tier, w: int, k: int, w2: int)
    requires
        w == ws_count(s),
        tier_match(t, s.skip(w)) matches Some(p) && p.1 == k,
        w2 == ws_count(s.skip(w + k)),
        w + k + w2 <= s.len(),
    ensures
        forall|i: int| 0 <= i < w + k + w2 ==> #[trigger] s.take(w + k + w2)[i] != '\n',
{
    lemma_ws_count_prefix(s);
    lemma_tier_match_token(t, s.skip(w));
    lemma_ws_count_prefix(s.skip(w + k));
    assert forall|i: int| 0 <= i < w + k + w2 implies #[trigger] s.take(w + k + w2)[i]
        != '\n' by {
        assert(s.take(w + k + w2)[i] == s[i]);
        if i < w {
            assert(is_space(s[i]));
        } else if i < w + k {
            assert(s.skip(w)[i - w] == s[i]);
        } else {
            assert(is_space(s.skip(w + k)[i - (w + k)]));
            assert(s.skip(w + k)[i - (w + k)] == s[i]);
        }
    }
}

/// Recognizer for the binary operators with precedence level 1: `&&` and
/// `||`, each possibly surrounded by horizontal whitespace.
pub fn bin_op_1(input: &Span) -> (r: Result<(Span, BinOp), ParseError>)
    requires
        input.wf(),
    ensures
        recognizes(*input, Tier::Logical, r),
{
    recognize(input, Tier::Logical)
}

/// Recognizer for the binary operators with precedence level 2: `<=`, `>=`,
/// `<`, `>`, `==` and `!=`, each possibly surrounded by horizontal
/// whitespace.  `<` and `>` refuse to match at the start of the shift
/// operators `<<` and `>>`.
pub fn bin_op_2(input: &Span) -> (r: Result<(Span, BinOp), ParseError>)
    requires
        input.wf(),
    ensures
        recognizes(*input, Tier::Comparison, r),
{
    recognize(input, Tier::Comparison)
}

/// Recognizer for the binary operators with precedence level 3: `&`, `|`,
/// `^`, `>>` and `<<`, each possibly surrounded by horizontal whitespace.
/// `&` and `|` refuse to match at the start of the logical operators `&&`
/// and `||`.
pub fn bin_op_3(input: &Span) -> (r: Result<(Span, BinOp), ParseError>)
    requires
        input.wf(),
    ensures
        recognizes(*input, Tier::Bitwise, r),
{
    recognize(input, Tier::Bitwise)
}

/// Recognizer for the binary operators with precedence level 4: `+` and
/// `-`, each possibly surrounded by horizontal whitespace.
pub fn bin_op_4(input: &Span) -> (r: Result<(Span, BinOp), ParseError>)
    requires
        input.wf(),
    ensures
        recognizes(*input, Tier::Additive, r),
{
    recognize(input, Tier::Additive)
}

/// Recognizer for the binary operators with precedence level 5: `*`, `/`
/// and `%`, each possibly surrounded by horizontal whitespace.
pub fn bin_op_5(input: &Span) -> (r: Result<(Span, BinOp), ParseError>)
    requires
        input.wf(),
    ensures
        recognizes(*input, Tier::Multiplicative, r),
{
    recognize(input, Tier::Multiplicative)
}

} // verus!
