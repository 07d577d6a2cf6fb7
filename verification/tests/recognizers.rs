use binop_parse::bin_op::{bin_op_1, bin_op_2, bin_op_3, bin_op_4, bin_op_5};
use binop_parse::error::{with_context, ParseError};
use binop_parse::op::BinOp;
use binop_parse::span::Span;

fn sp(text: &str) -> Span {
    Span::new(text.chars().collect())
}

fn chars_of(text: &str) -> Vec<char> {
    text.chars().collect()
}

type TierFn = fn(&Span) -> Result<(Span, BinOp), ParseError>;

fn tiers() -> Vec<(TierFn, &'static str)> {
    vec![
        (bin_op_1 as TierFn, "Expected logical operator (&&, ||)"),
        (bin_op_2 as TierFn, "Expected comparison operator (<=, >=, <, >, ==, !=)"),
        (bin_op_3 as TierFn, "Expected binary operator (&, |, ^, <<, >>)"),
        (bin_op_4 as TierFn, "Expected binary operator (+, -)"),
        (bin_op_5 as TierFn, "Expected binary operator (*, /, %)"),
    ]
}

fn expect_op(f: TierFn, text: &str, want: BinOp) -> Span {
    let s = sp(text);
    match f(&s) {
        Ok((rest, op)) => {
            assert_eq!(op, want, "wrong operator for {:?}", text);
            rest
        }
        Err(e) => panic!("no match for {:?}: {:?}", text, e),
    }
}

fn expect_full(f: TierFn, text: &str, want: BinOp) {
    let rest = expect_op(f, text, want);
    assert!(rest.chars.is_empty(), "residue after {:?}: {:?}", text, rest.chars);
    assert_eq!(rest.line, 1);
    assert_eq!(rest.col, 1 + text.chars().count());
}

#[test]
fn tier1_table_recognized() {
    for (text, want) in [("&&", BinOp::And), ("||", BinOp::Or)] {
        expect_full(bin_op_1, text, want);
        expect_full(bin_op_1, &format!("  {}  ", text), want);
    }
}

#[test]
fn tier2_table_recognized() {
    for (text, want) in [
        ("<=", BinOp::Lte),
        (">=", BinOp::Gte),
        ("<", BinOp::Lt),
        (">", BinOp::Gt),
        ("==", BinOp::Eq),
        ("!=", BinOp::Neq),
    ] {
        expect_full(bin_op_2, text, want);
        expect_full(bin_op_2, &format!(" \t{} \t", text), want);
    }
}

#[test]
fn tier3_table_recognized() {
    for (text, want) in [
        ("&", BinOp::BitAnd),
        ("|", BinOp::BitOr),
        ("^", BinOp::BitXor),
        (">>", BinOp::Shr),
        ("<<", BinOp::Shl),
    ] {
        expect_full(bin_op_3, text, want);
        expect_full(bin_op_3, &format!("   {}   ", text), want);
    }
}

#[test]
fn tier4_table_recognized() {
    for (text, want) in [("+", BinOp::Add), ("-", BinOp::Sub)] {
        expect_full(bin_op_4, text, want);
        expect_full(bin_op_4, &format!("  {}  ", text), want);
    }
}

#[test]
fn tier5_table_recognized() {
    for (text, want) in [("*", BinOp::Mul), ("/", BinOp::Div), ("%", BinOp::Rem)] {
        expect_full(bin_op_5, text, want);
        expect_full(bin_op_5, &format!("  {}  ", text), want);
    }
}

#[test]
fn no_candidate_fails_with_label_and_position() {
    for (f, label) in tiers() {
        let s = sp("x 1");
        match f(&s) {
            Ok((_, op)) => panic!("unexpected match {:?}", op),
            Err(e) => {
                assert_eq!(e.line, 1);
                assert_eq!(e.col, 1);
                assert_eq!(e.labels, vec![label]);
            }
        }
        // Nothing was consumed: the caller's span is exactly what it was.
        assert_eq!(s.chars, chars_of("x 1"));
        assert_eq!((s.line, s.col), (1, 1));
    }
}

#[test]
fn empty_input_fails_every_tier() {
    for (f, label) in tiers() {
        let s = sp("");
        let e = f(&s).unwrap_err();
        assert_eq!((e.line, e.col), (1, 1));
        assert_eq!(e.labels, vec![label]);
    }
}

#[test]
fn failure_is_positioned_past_leading_whitespace() {
    let s = sp("   ?");
    let e = bin_op_4(&s).unwrap_err();
    assert_eq!(e.line, 1);
    assert_eq!(e.col, 4);
    assert_eq!(s.chars, chars_of("   ?"));
}

#[test]
fn newline_is_not_horizontal_whitespace() {
    let s = sp("\n+");
    let e = bin_op_4(&s).unwrap_err();
    assert_eq!((e.line, e.col), (1, 1));
}

#[test]
fn shl_rejected_by_comparison_tier() {
    let s = sp("<<");
    assert!(bin_op_2(&s).is_err());
    assert_eq!(s.chars, chars_of("<<"));
}

#[test]
fn shl_accepted_by_bitwise_tier() {
    expect_full(bin_op_3, "<<", BinOp::Shl);
}

#[test]
fn shr_rejected_by_comparison_tier() {
    let s = sp(">>");
    assert!(bin_op_2(&s).is_err());
}

#[test]
fn shr_accepted_by_bitwise_tier() {
    expect_full(bin_op_3, ">>", BinOp::Shr);
}

#[test]
fn logical_and_rejected_by_bitwise_tier() {
    let s = sp("&&");
    assert!(bin_op_3(&s).is_err());
}

#[test]
fn logical_or_rejected_by_bitwise_tier() {
    let s = sp("||");
    assert!(bin_op_3(&s).is_err());
}

#[test]
fn lte_preferred_over_lt() {
    // `<=` is one operator: LTE, never LT with a dangling `=`.
    expect_full(bin_op_2, "<=", BinOp::Lte);
}

#[test]
fn lt_matches_when_followed_by_space() {
    let rest = expect_op(bin_op_2, "< =", BinOp::Lt);
    assert_eq!(rest.chars, chars_of("="));
    assert_eq!((rest.line, rest.col), (1, 3));
}

#[test]
fn guard_rejection_falls_through_to_tier_failure() {
    // `<<=` begins no comparison operator: `<=` does not fit, and the `<`
    // candidate is guard-rejected in front of the second `<`.
    let s = sp("<<=");
    let e = bin_op_2(&s).unwrap_err();
    assert_eq!((e.line, e.col), (1, 1));
}

#[test]
fn guarded_bitand_matches_before_other_characters() {
    let rest = expect_op(bin_op_3, "&^", BinOp::BitAnd);
    assert_eq!(rest.chars, chars_of("^"));
}

#[test]
fn triple_amp_fails_bitwise_tier() {
    let s = sp("&&&");
    assert!(bin_op_3(&s).is_err());
}

#[test]
fn whitespace_handling_is_idempotent() {
    // `  +  ` and `+` both give ADD with nothing but the consumed input
    // distinguishing the remainders.
    let padded = expect_op(bin_op_4, "  +  ", BinOp::Add);
    let bare = expect_op(bin_op_4, "+", BinOp::Add);
    assert_eq!(padded.chars, bare.chars);
    assert!(padded.chars.is_empty());
    assert_eq!(padded.col, 6);
    assert_eq!(bare.col, 2);
}

#[test]
fn and_after_identifier_scenario() {
    // "a && b" with the leading identifier already taken: " && b".
    let rest = expect_op(bin_op_1, " && b", BinOp::And);
    assert_eq!(rest.chars, chars_of("b"));
    assert_eq!((rest.line, rest.col), (1, 5));
}

#[test]
fn shift_right_scenario() {
    let s = sp(">> 3");
    assert!(bin_op_2(&s).is_err());
    let rest = expect_op(bin_op_3, ">> 3", BinOp::Shr);
    assert_eq!(rest.chars, chars_of("3"));
    assert_eq!((rest.line, rest.col), (1, 4));
}

#[test]
fn span_advance_tracks_lines_and_columns() {
    let s = sp("a\nbc");
    let t = s.advance(2);
    assert_eq!(t.chars, chars_of("bc"));
    assert_eq!((t.line, t.col), (2, 1));
    let u = t.advance(1);
    assert_eq!(u.chars, chars_of("c"));
    assert_eq!((u.line, u.col), (2, 2));
}

#[test]
fn context_label_keeps_position_and_deeper_labels() {
    let e = ParseError::at(3, 7);
    let wrapped = with_context("outer label", Err(e));
    let e2 = wrapped.unwrap_err();
    assert_eq!((e2.line, e2.col), (3, 7));
    assert_eq!(e2.labels, vec!["outer label"]);
    let rewrapped = with_context("outermost", Err(e2));
    let e3 = rewrapped.unwrap_err();
    assert_eq!((e3.line, e3.col), (3, 7));
    assert_eq!(e3.labels, vec!["outermost", "outer label"]);
}

#[test]
fn context_is_transparent_on_success() {
    let s = sp("+");
    let r = bin_op_4(&s).unwrap();
    let wrapped = with_context("ignored", Ok(r));
    let (rest, op) = wrapped.unwrap();
    assert_eq!(op, BinOp::Add);
    assert!(rest.chars.is_empty());
}
