//! Tier-wide laws of the recognizers, proved once over all inputs.

use vstd::prelude::*;

use crate::bin_op::{
    is_space, lemma_ws_count_all, lemma_ws_count_concat, lemma_ws_count_prefix, tier_consumed,
    tier_match, ws_count,
};
use crate::op::{BinOp, Tier};

verus! {

/// `tok` is one of tier `t`'s candidate spellings and `op` the tag it maps
/// to, exactly as the candidate tables list them.
pub open spec fn is_candidate(t: Tier, tok: Seq<char>, op: BinOp) -> bool {
    match t {
        Tier::Logical => {
            ||| (tok.len() == 2 && tok[0] == '&' && tok[1] == '&' && op == BinOp::And)
            ||| (tok.len() == 2 && tok[0] == '|' && tok[1] == '|' && op == BinOp::Or)
        },
        Tier::Comparison => {
            ||| (tok.len() == 2 && tok[0] == '<' && tok[1] == '=' && op == BinOp::Lte)
            ||| (tok.len() == 2 && tok[0] == '>' && tok[1] == '=' && op == BinOp::Gte)
            ||| (tok.len() == 1 && tok[0] == '<' && op == BinOp::Lt)
            ||| (tok.len() == 1 && tok[0] == '>' && op == BinOp::Gt)
            ||| (tok.len() == 2 && tok[0] == '=' && tok[1] == '=' && op == BinOp::Eq)
            ||| (tok.len() == 2 && tok[0] == '!' && tok[1] == '=' && op == BinOp::Neq)
        },
        Tier::Bitwise => {
            ||| (tok.len() == 1 && tok[0] == '&' && op == BinOp::BitAnd)
            ||| (tok.len() == 1 && tok[0] == '|' && op == BinOp::BitOr)
            ||| (tok.len() == 1 && tok[0] == '^' && op == BinOp::BitXor)
            ||| (tok.len() == 2 && tok[0] == '>' && tok[1] == '>' && op == BinOp::Shr)
            ||| (tok.len() == 2 && tok[0] == '<' && tok[1] == '<' && op == BinOp::Shl)
        },
        Tier::Additive => {
            ||| (tok.len() == 1 && tok[0] == '+' && op == BinOp::Add)
            ||| (tok.len() == 1 && tok[0] == '-' && op == BinOp::Sub)
        },
        Tier::Multiplicative => {
            ||| (tok.len() == 1 && tok[0] == '*' && op == BinOp::Mul)
            ||| (tok.len() == 1 && tok[0] == '/' && op == BinOp::Div)
            ||| (tok.len() == 1 && tok[0] == '%' && op == BinOp::Rem)
        },
    }
}

/// `c` is the first character of some candidate spelling of tier `t`.
pub open spec fn starts_candidate(t: Tier, c: char) -> bool {
    match t {
        Tier::Logical => c == '&' || c == '|',
        Tier::Comparison => c == '<' || c == '>' || c == '=' || c == '!',
        Tier::Bitwise => c == '&' || c == '|' || c == '^' || c == '>' || c == '<',
        Tier::Additive => c == '+' || c == '-',
        Tier::Multiplicative => c == '*' || c == '/' || c == '%',
    }
}

/// Every candidate spelling of every tier, surrounded by arbitrary runs of
/// horizontal whitespace and by nothing else, is recognized by its tier:
/// the mapped operator comes back and the spelling is consumed whole,
/// together with all the surrounding whitespace.
pub proof fn lemma_candidate_recognized(
    t: Tier,
    tok: Seq<char>,
    op: BinOp,
    pre: Seq<char>,
    post: Seq<char>,
)
    requires
        is_candidate(t, tok, op),
        forall|i: int| 0 <= i < pre.len() ==> is_space(#[trigger] pre[i]),
        forall|i: int| 0 <= i < post.len() ==> is_space(#[trigger] post[i]),
    ensures
        tier_consumed(t, pre + tok + post) == Some((op, (pre + tok + post).len() as int)),
{
    let s = pre + tok + post;
    let u = tok + post;
    assert(s =~= pre + u);
    lemma_ws_count_concat(pre, u);
    assert(u[0] == tok[0]);
    assert(!is_space(u[0]));
    assert(ws_count(u) == 0);
    assert(ws_count(s) == pre.len());
    assert(s.skip(pre.len() as int) =~= u);
    if tok.len() == 2 {
        assert(u[1] == tok[1]);
    } else {
        assert(u.len() == 1 + post.len());
        if u.len() >= 2 {
            assert(u[1] == post[0]);
            assert(is_space(u[1]));
        }
    }
    assert(tier_match(t, u) == Some((op, tok.len() as int)));
    assert(s.skip(pre.len() + tok.len() as int) =~= post);
    lemma_ws_count_all(post);
    assert(tier_consumed(t, s) == Some(
        (op, pre.len() + tok.len() + ws_count(post) as int),
    ));
    assert(pre.len() + tok.len() + post.len() == s.len());
}

/// A doubled character never matches as the tier of its one-character
/// prefix: the guards send text beginning `<<` or `>>` away from the
/// comparison tier to the bitwise tier, and text beginning `&&` or `||`
/// away from the bitwise tier to the logical tier.
pub proof fn lemma_guard_disambiguation(s: Seq<char>)
    requires
        s.len() >= 2,
    ensures
        s[0] == '<' && s[1] == '<' ==> tier_match(Tier::Comparison, s) is None && tier_match(
            Tier::Bitwise,
            s,
        ) == Some((BinOp::Shl, 2int)),
        s[0] == '>' && s[1] == '>' ==> tier_match(Tier::Comparison, s) is None && tier_match(
            Tier::Bitwise,
            s,
        ) == Some((BinOp::Shr, 2int)),
        s[0] == '&' && s[1] == '&' ==> tier_match(Tier::Bitwise, s) is None && tier_match(
            Tier::Logical,
            s,
        ) == Some((BinOp::And, 2int)),
        s[0] == '|' && s[1] == '|' ==> tier_match(Tier::Bitwise, s) is None && tier_match(
            Tier::Logical,
            s,
        ) == Some((BinOp::Or, 2int)),
{
}

/// When, past the leading whitespace, the text is empty or starts with a
/// character that begins no candidate spelling of tier `t`, the tier
/// recognizes nothing.
pub proof fn lemma_no_candidate_start_fails(t: Tier, s: Seq<char>)
    requires
        ({
            let rest = s.skip(ws_count(s) as int);
            rest.len() == 0 || !starts_candidate(t, rest[0])
        }),
    ensures
        tier_consumed(t, s) is None,
{
    lemma_ws_count_prefix(s);
    let rest = s.skip(ws_count(s) as int);
    assert(tier_match(t, rest) is None);
}

} // verus!
