use binop_parse::observer::{recognize_observed, Observation};
use binop_parse::op::{BinOp, Tier};
use binop_parse::span::Span;

fn span_of(text: &str) -> Span {
    Span::new(text.chars().collect())
}

#[test]
fn observer_records_success_at_token_position() {
    let s = span_of("  + 1");
    let mut log: Vec<Observation> = Vec::new();
    let r = recognize_observed(&s, Tier::Additive, &mut log);
    let (rest, op) = r.unwrap();
    assert_eq!(op, BinOp::Add);
    assert_eq!(rest.chars, vec!['1']);
    assert_eq!(
        log,
        vec![Observation { op: BinOp::Add, line: 1, col: 3 }]
    );
}

#[test]
fn observer_records_nothing_on_failure() {
    let s = span_of("  ?");
    let mut log: Vec<Observation> = Vec::new();
    let r = recognize_observed(&s, Tier::Additive, &mut log);
    let e = r.unwrap_err();
    assert_eq!((e.line, e.col), (1, 3));
    assert!(log.is_empty());
}

#[test]
fn observer_appends_across_calls() {
    let s = span_of("* /");
    let mut log: Vec<Observation> = Vec::new();
    let r1 = recognize_observed(&s, Tier::Multiplicative, &mut log);
    let (rest, _) = r1.unwrap();
    let r2 = recognize_observed(&rest, Tier::Multiplicative, &mut log);
    let (rest2, op2) = r2.unwrap();
    assert_eq!(op2, BinOp::Div);
    assert!(rest2.chars.is_empty());
    assert_eq!(
        log,
        vec![
            Observation { op: BinOp::Mul, line: 1, col: 1 },
            Observation { op: BinOp::Div, line: 1, col: 3 },
        ]
    );
}
