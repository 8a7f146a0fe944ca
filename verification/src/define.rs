use vstd::prelude::*;

verus! {

/// What `define!` sets up from its list of types: every type but the last
/// is a source that converts into the crate's error chain, and the last is
/// the type the chain keeps as its source.
#[derive(Debug)]
pub struct DefinePlan {
    pub sources: Vec<String>,
    pub target: String,
}

impl DefinePlan {
    /// Whether `define!` accepts a list of `n_types` types that ends with a
    /// comma or not: it needs at least one type and no trailing comma, and
    /// stops with "expected at least one type" otherwise.
    pub fn accepts(n_types: usize, trailing_comma: bool) -> (ok: bool)
        ensures
            ok == (n_types >= 1 && !trailing_comma),
    {
        n_types >= 1 && !trailing_comma
    }

    /// Splits the (non-empty) list of types, written as text, into the
    /// sources and the target.
    pub fn new(types: Vec<String>) -> (plan: DefinePlan)
        requires
            types@.len() >= 1,
        ensures
            plan.sources@ == types@.drop_last(),
            plan.target == types@.last(),
    {
        let mut sources = types;
        let target = sources.pop().unwrap();
        DefinePlan { sources, target }
    }
}

} // verus!
