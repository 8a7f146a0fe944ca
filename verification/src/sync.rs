use vstd::prelude::*;
use vstd::std_specs::convert::IntoSpec;

use crate::chain::{ErrorChain, IntoContext};

verus! {

/// Turns a failed `Result` into an [`ErrorChain`] that starts from the
/// error and carries one line of context; a success passes through.
pub trait ResultChain<I, T, E, D>: Sized {
    /// Whether the value is a failure, so that context will be attached.
    spec fn is_failure(&self) -> bool;

    /// Wraps a failure with `desc` as its context.
    fn about(self, desc: D) -> Result<T, ErrorChain<I>>;

    /// Wraps a failure with the context that `f` produces; `f` is only
    /// called on a failure.
    fn about_else<F: FnOnce() -> D>(self, f: F) -> Result<T, ErrorChain<I>>
        requires
            self.is_failure() ==> f.requires(()),
    ;
}

impl<I, T, E: Into<I>, D: IntoContext> ResultChain<I, T, E, D> for Result<T, E> {
    open spec fn is_failure(&self) -> bool {
        self is Err
    }

    fn about(self, desc: D) -> (r: Result<T, ErrorChain<I>>)
        ensures
            match self {
                Ok(t) => r == Ok::<T, ErrorChain<I>>(t),
                Err(e) => r matches Err(chain) && {
                    &&& <E as IntoSpec<I>>::obeys_into_spec() ==> chain.source_spec() == e.into_spec()
                    &&& chain.context_spec() == seq![desc.context_view()]
                },
            },
    {
        match self {
            Ok(t) => Ok(t),
            Err(e) => Err(ErrorChain::with_context(e, desc)),
        }
    }

    fn about_else<F: FnOnce() -> D>(self, f: F) -> (r: Result<T, ErrorChain<I>>)
        ensures
            match self {
                Ok(t) => r == Ok::<T, ErrorChain<I>>(t),
                Err(e) => r matches Err(chain) && {
                    &&& <E as IntoSpec<I>>::obeys_into_spec() ==> chain.source_spec() == e.into_spec()
                    &&& exists|d: D| f.ensures((), d) && chain.context_spec() == seq![d.context_view()]
                },
            },
    {
        match self {
            Ok(t) => Ok(t),
            Err(e) => {
                let desc = f();
                Err(ErrorChain::with_context(e, desc))
            },
        }
    }
}

/// For a closure that always gives the same value `d`, wrapping a failure
/// with `about_else` gives the same chain as wrapping it with `about(d)`:
/// the same source and the same single context line. The premises are what
/// `about_else` and `about` ensure for the same failure `e`, where the
/// conversion of `e` carries a specification.
pub proof fn law_about_else_is_about_of_value<I, E: Into<I>, D: IntoContext, F: FnOnce() -> D>(
    e: E,
    f: F,
    d: D,
    lazily: ErrorChain<I>,
    eagerly: ErrorChain<I>,
)
    requires
        <E as IntoSpec<I>>::obeys_into_spec(),
        f.ensures((), d),
        forall|d1: D, d2: D| f.ensures((), d1) && f.ensures((), d2) ==> d1 == d2,
        lazily.source_spec() == e.into_spec(),
        exists|d1: D| f.ensures((), d1) && lazily.context_spec() == seq![d1.context_view()],
        eagerly.source_spec() == e.into_spec(),
        eagerly.context_spec() == seq![d.context_view()],
    ensures
        lazily.source_spec() == eagerly.source_spec(),
        lazily.context_spec() == eagerly.context_spec(),
{
    let d1 = choose|d1: D| f.ensures((), d1) && lazily.context_spec() == seq![d1.context_view()];
    assert(d1 == d);
}

} // verus!
