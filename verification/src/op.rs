//! Operator tags and the five precedence tiers that group them.

use vstd::prelude::*;

verus! {

/// One tag per recognizable binary operator.  Every tag belongs to exactly
/// one precedence tier; the enclosing expression parser resolves the tiers
/// from loosest-binding to tightest.
#[derive(Clone, Copy, Debug, PartialEq, Eq)]
pub enum BinOp {
    And,
    Or,
    Lte,
    Gte,
    Lt,
    Gt,
    Eq,
    Neq,
    BitAnd,
    BitOr,
    BitXor,
    Shr,
    Shl,
    Add,
    Sub,
    Mul,
    Div,
    Rem,
}

/// The five precedence tiers, loosest-binding first.
#[derive(Clone, Copy, Debug, PartialEq, Eq)]
pub enum Tier {
    /// `&&`, `||`
    Logical,
    /// `<=`, `>=`, `<`, `>`, `==`, `!=`
    Comparison,
    /// `&`, `|`, `^`, `>>`, `<<`
    Bitwise,
    /// `+`, `-`
    Additive,
    /// `*`, `/`, `%`
    Multiplicative,
}

/// The static label a tier attaches to its failures: a human-readable
/// description of the tier's full candidate set.
pub open spec fn tier_label(t: Tier) -> Seq<char> {
    match t {
        Tier::Logical => "Expected logical operator (&&, ||)"@,
        Tier::Comparison => "Expected comparison operator (<=, >=, <, >, ==, !=)"@,
        Tier::Bitwise => "Expected binary operator (&, |, ^, <<, >>)"@,
        Tier::Additive => "Expected binary operator (+, -)"@,
        Tier::Multiplicative => "Expected binary operator (*, /, %)"@,
    }
}

/// The label of `tier_label`, as a borrowed static string.
pub fn tier_label_text(t: Tier) -> (r: &'static str)
    ensures
        r@ == tier_label(t),
{
    match t {
        Tier::Logical => "Expected logical operator (&&, ||)",
        Tier::Comparison => "Expected comparison operator (<=, >=, <, >, ==, !=)",
        Tier::Bitwise => "Expected binary operator (&, |, ^, <<, >>)",
        Tier::Additive => "Expected binary operator (+, -)",
        Tier::Multiplicative => "Expected binary operator (*, /, %)",
    }
}

} // verus!
