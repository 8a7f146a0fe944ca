use resplus::define::DefinePlan;
use resplus::invocation::{selectors_fit_check, tmp_name};
use resplus::text::decimal_text;
use resplus::{Bound, CallSyntax, Callee, FmtArg, IntLit, ParseError, Parsed, SelectorSyntax};

fn call(path: &str, n_args: usize) -> CallSyntax {
    CallSyntax::Function { path: path.to_string(), n_args }
}

fn idx(i: usize) -> SelectorSyntax {
    SelectorSyntax::Index(IntLit::Value(i))
}

fn lit(v: usize) -> Bound {
    Bound::Literal(IntLit::Value(v))
}

#[test]
fn not_a_call_is_rejected() {
    let r = Parsed::parse(CallSyntax::NotACall, &vec![idx(0)]);
    assert_eq!(r.unwrap_err(), ParseError::ExpectedFunctionCall);
    assert_eq!(ParseError::ExpectedFunctionCall.message(), "expected function call");
}

#[test]
fn range_end_must_be_a_literal() {
    let sels = vec![SelectorSyntax::Range(lit(0), Bound::NotLiteral)];
    assert!(selectors_fit_check(2, &sels));
    assert_eq!(Parsed::parse(call("f", 2), &sels).unwrap_err(), ParseError::ExpectedInteger);
    assert_eq!(ParseError::ExpectedInteger.message(), "expected integer");
}

#[test]
fn selector_must_be_integer_or_range() {
    let sels = vec![idx(0), SelectorSyntax::Invalid];
    assert_eq!(Parsed::parse(call("f", 2), &sels).unwrap_err(), ParseError::ExpectedIntegerOrRange);
    assert_eq!(ParseError::ExpectedIntegerOrRange.message(), "expected integer or range");
}

#[test]
fn literal_too_large_is_rejected() {
    let sels = vec![SelectorSyntax::Index(IntLit::TooLarge)];
    assert_eq!(Parsed::parse(call("f", 2), &sels).unwrap_err(), ParseError::IntegerTooLarge);
    assert_eq!(ParseError::IntegerTooLarge.message(), "number too large to fit in target type");
}

#[test]
fn first_error_wins() {
    let sels = vec![SelectorSyntax::Range(Bound::NotLiteral, Bound::Literal(IntLit::TooLarge)), SelectorSyntax::Invalid];
    assert_eq!(Parsed::parse(call("f", 2), &sels).unwrap_err(), ParseError::ExpectedInteger);
}

#[test]
fn out_of_range_selectors_do_not_fit() {
    assert!(!selectors_fit_check(2, &vec![idx(2)]));
    assert!(!selectors_fit_check(2, &vec![SelectorSyntax::Range(lit(1), lit(3))]));
    assert!(selectors_fit_check(2, &vec![SelectorSyntax::Range(lit(5), lit(3))]));
    assert!(selectors_fit_check(2, &vec![idx(1), SelectorSyntax::Invalid, idx(9)]));
    assert!(!selectors_fit_check(2, &vec![idx(9), SelectorSyntax::Invalid]));
}

#[test]
fn ordered_selectors_mark_each_position_once() {
    let sels = vec![SelectorSyntax::Range(lit(0), lit(2)), idx(3)];
    let p = Parsed::parse(call("g", 5), &sels).unwrap();
    assert_eq!(
        p.fargs,
        vec![FmtArg::Captured(0), FmtArg::Captured(1), FmtArg::Skipped, FmtArg::Captured(3), FmtArg::Skipped]
    );
    assert_eq!(p.pargs, vec![0, 1, 3]);
    assert_eq!(p.n_args, 5);
    assert_eq!(p.func, Callee::Function("g".to_string()));
}

#[test]
fn out_of_order_selectors_keep_reading_order() {
    let sels = vec![idx(1), idx(0)];
    let p = Parsed::parse(call("f2", 2), &sels).unwrap();
    assert_eq!(p.fargs, vec![FmtArg::Skipped, FmtArg::Captured(1), FmtArg::Captured(0), FmtArg::Skipped]);
    assert_eq!(p.context(&vec!["a".to_string(), "b".to_string()]), "f2(_, b, a, _)");
}

#[test]
fn omitted_range_ends_default_to_all_arguments() {
    let p = Parsed::parse(call("h", 3), &vec![SelectorSyntax::Range(Bound::Omitted, lit(2))]).unwrap();
    assert_eq!(p.pargs, vec![0, 1]);
    let p = Parsed::parse(call("h", 3), &vec![SelectorSyntax::Range(lit(1), Bound::Omitted)]).unwrap();
    assert_eq!(p.pargs, vec![1, 2]);
    assert_eq!(p.format_string(), "h(_, {__1}, {__2})");
}

#[test]
fn format_string_and_context_agree() {
    let sels = vec![idx(0), idx(2)];
    let p = Parsed::parse(CallSyntax::Method { name: "run".to_string(), n_args: 3 }, &sels).unwrap();
    assert_eq!(p.fmt_func(), "run");
    assert_eq!(p.format_string(), "run({__0}, _, {__2})");
    let placeholders: Vec<String> = (0..3).map(|i| format!("{{{}}}", tmp_name(i))).collect();
    assert_eq!(p.context(&placeholders), p.format_string());
    assert_eq!(p.context(&vec!["1".into(), "2".into(), "3".into()]), "run(1, _, 3)");
}

#[test]
fn no_arguments_render_empty_brackets() {
    let p = Parsed::parse(call("f0", 0), &vec![]).unwrap();
    assert_eq!(p.format_string(), "f0()");
    assert_eq!(p.context(&vec![]), "f0()");
}

#[test]
fn temporaries_are_named_by_position() {
    assert_eq!(tmp_name(0), "__0");
    assert_eq!(tmp_name(12), "__12");
    assert_ne!(tmp_name(1), tmp_name(10));
    assert_eq!(decimal_text(0), "0");
    assert_eq!(decimal_text(120), "120");
    assert_eq!(decimal_text(usize::MAX), usize::MAX.to_string());
}

#[test]
fn define_splits_sources_and_target() {
    let plan = DefinePlan::new(vec!["A".to_string(), "B".to_string(), "Target".to_string()]);
    assert_eq!(plan.sources, vec!["A".to_string(), "B".to_string()]);
    assert_eq!(plan.target, "Target");
    let plan = DefinePlan::new(vec!["Only".to_string()]);
    assert!(plan.sources.is_empty());
    assert_eq!(plan.target, "Only");
}

#[test]
fn define_needs_types_and_no_trailing_comma() {
    assert!(DefinePlan::accepts(1, false));
    assert!(DefinePlan::accepts(3, false));
    assert!(!DefinePlan::accepts(0, false));
    assert!(!DefinePlan::accepts(2, true));
}
