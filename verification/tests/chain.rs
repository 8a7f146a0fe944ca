use resplus::test_util::{f0, Error, Error1};
use resplus::{attach_call, CallSyntax, ErrorChain, Parsed, ResultChain, ResultChainAttach, SelectorSyntax, IntLit};

#[test]
fn new_chain_renders_source_only() {
    let chain: ErrorChain<Error> = ErrorChain::new(Error1);
    assert_eq!(chain.to_string(), "source: Error");
    assert!(matches!(chain.source(), Error::E1(Error1)));
}

#[test]
fn with_context_renders_one_line() {
    let chain: ErrorChain<Error> = ErrorChain::with_context(Error1, "reading config");
    assert_eq!(chain.to_string(), "source: Error\n  reading config");
}

#[test]
fn with_context_matches_new_then_append() {
    let direct: ErrorChain<Error> = ErrorChain::with_context(Error1, String::from("step"));
    let mut appended: ErrorChain<Error> = ErrorChain::new(Error1);
    appended.append("step");
    assert_eq!(direct.to_string(), appended.to_string());
}

#[test]
fn append_adds_lines_in_order() {
    let mut chain: ErrorChain<Error> = ErrorChain::with_context(Error1, "first");
    let before = chain.to_string();
    chain.append(String::from("second"));
    assert_eq!(chain.to_string(), format!("{}\n  second", before));
    chain.append("third");
    assert_eq!(chain.to_string(), "source: Error\n  first\n  second\n  third");
}

#[test]
fn about_passes_success_through() {
    let ok: Result<u32, Error1> = Ok(7);
    let r: Result<u32, ErrorChain<Error>> = ok.about("never shown");
    assert_eq!(r.ok(), Some(7));
    let mut called = false;
    let ok: Result<u32, Error1> = Ok(8);
    let r: Result<u32, ErrorChain<Error>> = ok.about_else(|| {
        called = true;
        "never shown"
    });
    assert_eq!(r.ok(), Some(8));
    assert!(!called);
}

#[test]
fn about_else_with_owned_text() {
    let r: Result<(), ErrorChain<Error>> = f0().about_else(|| format!("loading {}", 3));
    assert_eq!(r.unwrap_err().to_string(), "source: Error\n  loading 3");
}

#[test]
fn attach_appends_to_existing_chain() {
    let r: Result<(), ErrorChain<Error>> = f0().about("inner");
    let r = r.attach("outer");
    let r = r.attach_else(|| String::from("outermost"));
    assert_eq!(r.unwrap_err().to_string(), "source: Error\n  inner\n  outer\n  outermost");
}

#[test]
fn attach_passes_success_through() {
    let ok: Result<u32, ErrorChain<Error>> = Ok(3);
    assert_eq!(ok.attach("unused").ok(), Some(3));
}

#[test]
fn attach_call_appends_context_line() {
    let sels = vec![SelectorSyntax::Index(IntLit::Value(1))];
    let parsed = Parsed::parse(CallSyntax::Function { path: "load".to_string(), n_args: 2 }, &sels).unwrap();
    let r: Result<(), ErrorChain<Error>> = f0().about("open");
    let r = attach_call(r, &parsed, &vec!["a".to_string(), "b".to_string()]);
    assert_eq!(r.unwrap_err().to_string(), "source: Error\n  open\n  load(_, b)");
}

#[test]
fn render_with_uses_given_source_text() {
    let mut chain: ErrorChain<Error> = ErrorChain::new(Error1);
    assert_eq!(chain.render_with("disk full"), "source: disk full");
    chain.append("saving");
    assert_eq!(chain.render_with("disk full"), "source: disk full\n  saving");
}

#[test]
fn copy_on_write_context_lines() {
    let mut chain: ErrorChain<Error> = ErrorChain::with_context(Error1, std::borrow::Cow::Borrowed("borrowed"));
    chain.append(std::borrow::Cow::<'static, str>::Owned(String::from("owned")));
    assert_eq!(chain.to_string(), "source: Error\n  borrowed\n  owned");
}

#[test]
fn appends_keep_the_source() {
    let mut chain: ErrorChain<Error> = ErrorChain::new(Error1);
    for line in ["a", "b", "c"] {
        chain.append(line);
        assert!(matches!(chain.source(), Error::E1(Error1)));
    }
    assert_eq!(chain.to_string(), "source: Error\n  a\n  b\n  c");
}

#[test]
fn about_else_matches_about_of_the_value() {
    let lazily: Result<(), ErrorChain<Error>> = f0().about_else(|| "step");
    let eagerly: Result<(), ErrorChain<Error>> = f0().about("step");
    assert_eq!(lazily.unwrap_err().to_string(), eagerly.unwrap_err().to_string());
}

#[test]
fn from_source_keeps_the_given_source() {
    let chain: ErrorChain<Error> = ErrorChain::from_source(Error::E1(Error1));
    assert!(matches!(chain.source(), Error::E1(Error1)));
    assert_eq!(chain.to_string(), "source: Error");
    let direct: ErrorChain<Error> = ErrorChain::from_source_with_context(Error::E1(Error1), "step");
    let mut appended: ErrorChain<Error> = ErrorChain::from_source(Error::E1(Error1));
    appended.append("step");
    assert_eq!(direct.to_string(), appended.to_string());
    assert_eq!(direct.to_string(), "source: Error\n  step");
}

#[test]
fn attach_else_matches_attach_of_the_value() {
    let base = || -> Result<(), ErrorChain<Error>> { f0().about("inner") };
    let lazily = base().attach_else(|| "outer");
    let eagerly = base().attach("outer");
    assert_eq!(lazily.unwrap_err().to_string(), eagerly.unwrap_err().to_string());
}
