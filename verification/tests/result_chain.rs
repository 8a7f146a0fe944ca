use resplus::test_util::{f0, f1, f2, Error};
use resplus::{ErrorChain, ResultChain};

#[test]
fn sync_about() {
    let r: Result<(), ErrorChain<Error>> = f0().about("source");
    assert_eq!(r.unwrap_err().to_string(), "source: Error\n  source");
    let r: Result<(), ErrorChain<Error>> = f1(1).about("source");
    assert_eq!(r.unwrap_err().to_string(), "source: Error\n  source");
    let r: Result<(), ErrorChain<Error>> = f2(1, 1).about("source");
    assert_eq!(r.unwrap_err().to_string(), "source: Error\n  source");
}

#[test]
fn sync_about_else() {
    let r: Result<(), ErrorChain<Error>> = f0().about_else(|| "source");
    assert_eq!(r.unwrap_err().to_string(), "source: Error\n  source");
    let r: Result<(), ErrorChain<Error>> = f1(1).about_else(|| "source");
    assert_eq!(r.unwrap_err().to_string(), "source: Error\n  source");
    let r: Result<(), ErrorChain<Error>> = f2(1, 1).about_else(|| "source");
    assert_eq!(r.unwrap_err().to_string(), "source: Error\n  source");
}
