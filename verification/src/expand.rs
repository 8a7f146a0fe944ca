use vstd::prelude::*;
use vstd::std_specs::convert::IntoSpec;

use crate::attach::ResultChainAttach;
use crate::chain::ErrorChain;
use crate::invocation::{callee_name, captures_within, context_spec, Parsed};
use crate::sync::ResultChain;

verus! {

/// The run-time effect of a `flog!` invocation, as a function of the
/// call's result and the shown arguments. (The generated code reaches the
/// same result by calling `about_else` with the format string that
/// [`Parsed::format_string`] gives; `law_context_fills_format` relates the
/// two.) A failure
/// becomes a chain that starts from the error, with the invocation's
/// context line (the callee and the shown arguments) as its only context;
/// a success passes through. `shown[i]` is how the argument at position
/// `i` displays.
pub fn flog_call<I, T, E: Into<I>>(result: Result<T, E>, parsed: &Parsed, shown: &Vec<String>) -> (r: Result<T, ErrorChain<I>>)
    requires
        captures_within(parsed.fargs@, shown@.len() as int),
    ensures
        match result {
            Ok(t) => r == Ok::<T, ErrorChain<I>>(t),
            Err(e) => r matches Err(chain) && {
                &&& <E as IntoSpec<I>>::obeys_into_spec() ==> chain.source_spec() == e.into_spec()
                &&& chain.context_spec() == seq![
                    context_spec(callee_name(parsed.func), parsed.fargs@, shown@.map_values(|s: String| s@)),
                ]
            },
        },
{
    let describe = || -> (line: String)
        requires
            captures_within(parsed.fargs@, shown@.len() as int),
        ensures
            line@ == context_spec(callee_name(parsed.func), parsed.fargs@, shown@.map_values(|s: String| s@)),
        { parsed.context(shown) };
    result.about_else(describe)
}

/// The run-time effect of an `attach!` invocation, as a function of the
/// call's result and the shown arguments (the generated code calls
/// `attach_else` with the format string). A failure
/// that already is a chain gets the invocation's context line appended; a
/// success passes through.
pub fn attach_call<I, T>(result: Result<T, ErrorChain<I>>, parsed: &Parsed, shown: &Vec<String>) -> (r: Result<T, ErrorChain<I>>)
    requires
        captures_within(parsed.fargs@, shown@.len() as int),
    ensures
        match result {
            Ok(t) => r == Ok::<T, ErrorChain<I>>(t),
            Err(e) => r matches Err(chain) && {
                &&& chain.source_spec() == e.source_spec()
                &&& chain.context_spec() == e.context_spec().push(
                    context_spec(callee_name(parsed.func), parsed.fargs@, shown@.map_values(|s: String| s@)),
                )
            },
        },
{
    let describe = || -> (line: String)
        requires
            captures_within(parsed.fargs@, shown@.len() as int),
        ensures
            line@ == context_spec(callee_name(parsed.func), parsed.fargs@, shown@.map_values(|s: String| s@)),
        { parsed.context(shown) };
    result.attach_else(describe)
}

} // verus!
