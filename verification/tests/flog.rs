use resplus::invocation::selectors_fit_check;
use resplus::test_util::{f0, f1, f2, f3, Error, Error1, Test};
use resplus::{flog_call, Bound, CallSyntax, ErrorChain, IntLit, Parsed, SelectorSyntax};

fn call(path: &str, n_args: usize) -> CallSyntax {
    CallSyntax::Function { path: path.to_string(), n_args }
}

fn method(name: &str, n_args: usize) -> CallSyntax {
    CallSyntax::Method { name: name.to_string(), n_args }
}

fn idx(i: usize) -> SelectorSyntax {
    SelectorSyntax::Index(IntLit::Value(i))
}

fn range(start: Option<usize>, end: Option<usize>) -> SelectorSyntax {
    let bound = |b: Option<usize>| match b {
        Some(v) => Bound::Literal(IntLit::Value(v)),
        None => Bound::Omitted,
    };
    SelectorSyntax::Range(bound(start), bound(end))
}

fn shown(values: &[i32]) -> Vec<String> {
    values.iter().map(|v| v.to_string()).collect()
}

/// What `flog!(<call>, <selectors>)` reports when the call fails.
fn flog(res: Result<(), Error1>, call: CallSyntax, sels: Vec<SelectorSyntax>, args: Vec<String>) -> String {
    let n_args = match &call {
        CallSyntax::Function { n_args, .. } | CallSyntax::Method { n_args, .. } => *n_args,
        CallSyntax::NotACall => 0,
    };
    assert!(selectors_fit_check(n_args, &sels));
    let parsed = Parsed::parse(call, &sels).unwrap();
    let r: Result<(), ErrorChain<Error>> = flog_call(res, &parsed, &args);
    r.unwrap_err().to_string()
}

#[test]
fn flog_no_args() {
    assert_eq!(flog(f0(), call("f0", 0), vec![], shown(&[])), "source: Error\n  f0()");
    assert_eq!(flog(f1(1), call("f1", 1), vec![], shown(&[1])), "source: Error\n  f1(_)");
    assert_eq!(flog(f2(1, 1), call("f2", 2), vec![], shown(&[1, 1])), "source: Error\n  f2(_, _)");
}

#[test]
fn flog_with_literal() {
    assert_eq!(flog(f1(1), call("f1", 1), vec![idx(0)], shown(&[1])), "source: Error\n  f1(1)");
    assert_eq!(flog(f2(1, 1), call("f2", 2), vec![idx(0), idx(1)], shown(&[1, 1])), "source: Error\n  f2(1, 1)");
    assert_eq!(
        flog(f2(1, 1), call("f2", 2), vec![range(Some(0), Some(1)), idx(1)], shown(&[1, 1])),
        "source: Error\n  f2(1, 1)"
    );
    assert_eq!(
        flog(f3(1, 1, 1), call("f3", 3), vec![range(None, None)], shown(&[1, 1, 1])),
        "source: Error\n  f3(1, 1, 1)"
    );
}

#[test]
fn flog_with_variable() {
    let a = 1;
    assert_eq!(flog(f1(a), call("f1", 1), vec![idx(0)], shown(&[a])), "source: Error\n  f1(1)");
    assert_eq!(flog(f2(a, a), call("f2", 2), vec![idx(0), idx(1)], shown(&[a, a])), "source: Error\n  f2(1, 1)");
    assert_eq!(
        flog(f2(a, a), call("f2", 2), vec![range(Some(0), Some(1)), idx(1)], shown(&[a, a])),
        "source: Error\n  f2(1, 1)"
    );
    assert_eq!(
        flog(f3(a, a, a), call("f3", 3), vec![range(None, None)], shown(&[a, a, a])),
        "source: Error\n  f3(1, 1, 1)"
    );
}

#[test]
fn flog_with_expr() {
    let (x, y, z) = (1 + 1, 1 + 1, 1 + 1);
    assert_eq!(flog(f1(x), call("f1", 1), vec![idx(0)], shown(&[x])), "source: Error\n  f1(2)");
    assert_eq!(flog(f2(x, y), call("f2", 2), vec![idx(0), idx(1)], shown(&[x, y])), "source: Error\n  f2(2, 2)");
    assert_eq!(
        flog(f2(x, y), call("f2", 2), vec![range(Some(0), Some(1)), idx(1)], shown(&[x, y])),
        "source: Error\n  f2(2, 2)"
    );
    assert_eq!(
        flog(f3(x, y, z), call("f3", 3), vec![range(None, None)], shown(&[x, y, z])),
        "source: Error\n  f3(2, 2, 2)"
    );
}

#[test]
fn flog_mixed_args() {
    assert_eq!(flog(f2(1, 1), call("f2", 2), vec![idx(1)], shown(&[1, 1])), "source: Error\n  f2(_, 1)");
    assert_eq!(flog(f2(1, 1), call("f2", 2), vec![idx(0)], shown(&[1, 1])), "source: Error\n  f2(1, _)");
    assert_eq!(flog(f2(1, 1), call("f2", 2), vec![idx(0), idx(1)], shown(&[1, 1])), "source: Error\n  f2(1, 1)");
    assert_eq!(
        flog(f2(1, 1), call("f2", 2), vec![range(Some(0), Some(1)), idx(1)], shown(&[1, 1])),
        "source: Error\n  f2(1, 1)"
    );
    assert_eq!(
        flog(f3(1, 1, 1), call("f3", 3), vec![idx(0), idx(1)], shown(&[1, 1, 1])),
        "source: Error\n  f3(1, 1, _)"
    );
    assert_eq!(
        flog(f3(1, 1, 1), call("f3", 3), vec![range(Some(0), Some(1)), idx(2)], shown(&[1, 1, 1])),
        "source: Error\n  f3(1, _, 1)"
    );
}

#[test]
fn flog_method_no_args() {
    let t = Test;
    assert_eq!(flog(t.f0(), method("f0", 0), vec![], shown(&[])), "source: Error\n  f0()");
    assert_eq!(flog(t.f1(1), method("f1", 1), vec![], shown(&[1])), "source: Error\n  f1(_)");
    assert_eq!(flog(t.f2(1, 1), method("f2", 2), vec![], shown(&[1, 1])), "source: Error\n  f2(_, _)");
}

#[test]
fn flog_method_with_literal() {
    let t = Test;
    assert_eq!(flog(t.f1(1), method("f1", 1), vec![idx(0)], shown(&[1])), "source: Error\n  f1(1)");
    assert_eq!(flog(t.f2(1, 1), method("f2", 2), vec![idx(0), idx(1)], shown(&[1, 1])), "source: Error\n  f2(1, 1)");
    assert_eq!(
        flog(t.f2(1, 1), method("f2", 2), vec![range(Some(0), Some(1)), idx(1)], shown(&[1, 1])),
        "source: Error\n  f2(1, 1)"
    );
    assert_eq!(
        flog(t.f3(1, 1, 1), method("f3", 3), vec![range(None, None)], shown(&[1, 1, 1])),
        "source: Error\n  f3(1, 1, 1)"
    );
}
