use vstd::prelude::*;

use crate::chain::{ErrorChain, IntoContext};

verus! {

/// Adds one more line of context to a failure that already is an
/// [`ErrorChain`]; a success passes through.
pub trait ResultChainAttach<T, D>: Sized {
    /// Whether the value is a failure, so that context will be attached.
    spec fn is_failure(&self) -> bool;

    /// Appends `desc` to the failure's context.
    fn attach(self, desc: D) -> Self;

    /// Appends the context that `f` produces; `f` is only called on a
    /// failure.
    fn attach_else<F: FnOnce() -> D>(self, f: F) -> Self
        requires
            self.is_failure() ==> f.requires(()),
    ;
}

impl<I, T, D: IntoContext> ResultChainAttach<T, D> for Result<T, ErrorChain<I>> {
    open spec fn is_failure(&self) -> bool {
        self is Err
    }

    fn attach(self, desc: D) -> (r: Self)
        ensures
            match self {
                Ok(t) => r == Ok::<T, ErrorChain<I>>(t),
                Err(e) => r matches Err(chain) && {
                    &&& chain.source_spec() == e.source_spec()
                    &&& chain.context_spec() == e.context_spec().push(desc.context_view())
                },
            },
    {
        match self {
            Ok(t) => Ok(t),
            Err(mut e) => {
                e.append(desc);
                Err(e)
            },
        }
    }

    fn attach_else<F: FnOnce() -> D>(self, f: F) -> (r: Self)
        ensures
            match self {
                Ok(t) => r == Ok::<T, ErrorChain<I>>(t),
                Err(e) => r matches Err(chain) && {
                    &&& chain.source_spec() == e.source_spec()
                    &&& exists|d: D| f.ensures((), d) && chain.context_spec() == e.context_spec().push(d.context_view())
                },
            },
    {
        match self {
            Ok(t) => Ok(t),
            Err(mut e) => {
                let desc = f();
                e.append(desc);
                Err(e)
            },
        }
    }
}

/// For a closure that always gives the same value `d`, appending to a
/// failure with `attach_else` gives the same chain as `attach(d)`: the
/// failure's source, and its context followed by `d`. The premises are what
/// `attach_else` and `attach` ensure for the same failure `e`.
pub proof fn law_attach_else_is_attach_of_value<I, D: IntoContext, F: FnOnce() -> D>(
    e: ErrorChain<I>,
    f: F,
    d: D,
    lazily: ErrorChain<I>,
    eagerly: ErrorChain<I>,
)
    requires
        f.ensures((), d),
        forall|d1: D, d2: D| f.ensures((), d1) && f.ensures((), d2) ==> d1 == d2,
        lazily.source_spec() == e.source_spec(),
        exists|d1: D| f.ensures((), d1) && lazily.context_spec() == e.context_spec().push(d1.context_view()),
        eagerly.source_spec() == e.source_spec(),
        eagerly.context_spec() == e.context_spec().push(d.context_view()),
    ensures
        lazily.source_spec() == eagerly.source_spec(),
        lazily.context_spec() == eagerly.context_spec(),
        lazily.context_spec() == e.context_spec().push(d.context_view()),
{
    let d1 = choose|d1: D| f.ensures((), d1) && lazily.context_spec() == e.context_spec().push(d1.context_view());
    assert(d1 == d);
}

} // verus!
