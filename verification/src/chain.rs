use vstd::prelude::*;
use vstd::std_specs::convert::IntoSpec;

verus! {

/// A value that can become one line of context.
///
/// Implemented for the kinds of text that callers hand in: static string
/// slices, owned strings, and copy-on-write strings over either.
pub trait IntoContext {
    /// The characters of the context line this value becomes.
    spec fn context_view(&self) -> Seq<char>;

    /// Turns the value into an owned context line.
    fn into_context(self) -> (line: String)
        ensures
            line@ == self.context_view(),
    ;
}

impl IntoContext for &'static str {
    open spec fn context_view(&self) -> Seq<char> {
        (*self)@
    }

    fn into_context(self) -> (line: String) {
        self.to_owned()
    }
}

impl IntoContext for String {
    open spec fn context_view(&self) -> Seq<char> {
        self@
    }

    fn into_context(self) -> (line: String) {
        self
    }
}

impl IntoContext for std::borrow::Cow<'static, str> {
    open spec fn context_view(&self) -> Seq<char> {
        self@
    }

    fn into_context(self) -> (line: String) {
        match self {
            std::borrow::Cow::Borrowed(text) => text.to_owned(),
            std::borrow::Cow::Owned(text) => text,
        }
    }
}

/// How an error source shows itself in the first line of a rendered chain.
pub trait Describe {
    /// The text of the source.
    spec fn description(&self) -> Seq<char>;

    /// Renders the source.
    fn describe(&self) -> (text: String)
        ensures
            text@ == self.description(),
    ;
}

/// The characters `source: `.
pub open spec fn source_label() -> Seq<char> {
    seq!['s', 'o', 'u', 'r', 'c', 'e', ':', ' ']
}

/// The characters that open each context line: a newline and two spaces.
pub open spec fn context_indent() -> Seq<char> {
    seq!['\n', ' ', ' ']
}

/// The context lines as they appear below the source, each on a line of its
/// own, indented by two spaces.
pub open spec fn render_context(context: Seq<Seq<char>>) -> Seq<char>
    decreases context.len(),
{
    if context.len() == 0 {
        Seq::empty()
    } else {
        render_context(context.drop_last()) + context_indent() + context.last()
    }
}

/// The whole rendered chain: `source: <source>` followed by the context lines.
pub open spec fn render_chain(source: Seq<char>, context: Seq<Seq<char>>) -> Seq<char> {
    source_label() + source + render_context(context)
}

#[derive(Debug)]
struct Inner<I> {
    source: I,
    context: Vec<String>,
}

/// An error together with the context lines collected while it travelled
/// up the call stack, oldest first.
#[derive(Debug)]
pub struct ErrorChain<I> {
    inner: Box<Inner<I>>,
}

impl<I> ErrorChain<I> {
    /// The error this chain started from.
    pub closed spec fn source_spec(&self) -> I {
        self.inner.source
    }

    /// The context lines, oldest first.
    pub closed spec fn context_spec(&self) -> Seq<Seq<char>> {
        self.inner.context@.map_values(|c: String| c@)
    }

    /// Starts a chain whose source is `source` itself, with no context yet.
    pub fn from_source(source: I) -> (chain: Self)
        ensures
            chain.source_spec() == source,
            chain.context_spec() == Seq::<Seq<char>>::empty(),
    {
        let chain = ErrorChain { inner: Box::new(Inner { source, context: Vec::new() }) };
        assert(chain.context_spec() =~= Seq::<Seq<char>>::empty());
        chain
    }

    /// Starts a chain whose source is `source` itself, with `context` as its
    /// only context line.
    pub fn from_source_with_context<C: IntoContext>(source: I, context: C) -> (chain: Self)
        ensures
            chain.source_spec() == source,
            chain.context_spec() == seq![context.context_view()],
    {
        let line = context.into_context();
        let chain = ErrorChain { inner: Box::new(Inner { source, context: vec![line] }) };
        assert(chain.context_spec() =~= seq![context.context_view()]);
        chain
    }

    /// Starts a chain from `source`, with no context yet.
    ///
    /// The source is stated only where the conversion into `I` carries a
    /// specification (a `From` impl with `FromSpecImpl`, as the library's
    /// own error types have); vstd gives none for the identity conversion,
    /// so for `new(e)` with `e: I` the contract leaves the source unsaid:
    /// [`ErrorChain::from_source`] states it for a source of type `I`.
    pub fn new<S: Into<I>>(source: S) -> (chain: Self)
        ensures
            <S as IntoSpec<I>>::obeys_into_spec() ==> chain.source_spec() == source.into_spec(),
            chain.context_spec() == Seq::<Seq<char>>::empty(),
    {
        let chain = ErrorChain { inner: Box::new(Inner { source: source.into(), context: Vec::new() }) };
        assert(chain.context_spec() =~= Seq::<Seq<char>>::empty());
        chain
    }

    /// Starts a chain from `source` with `context` as its only context line.
    ///
    /// As for [`ErrorChain::new`], the source is stated only where the
    /// conversion into `I` carries a specification;
    /// [`ErrorChain::from_source_with_context`] states it for a source of
    /// type `I`.
    pub fn with_context<S: Into<I>, C: IntoContext>(source: S, context: C) -> (chain: Self)
        ensures
            <S as IntoSpec<I>>::obeys_into_spec() ==> chain.source_spec() == source.into_spec(),
            chain.context_spec() == seq![context.context_view()],
    {
        let line = context.into_context();
        let chain = ErrorChain { inner: Box::new(Inner { source: source.into(), context: vec![line] }) };
        assert(chain.context_spec() =~= seq![context.context_view()]);
        chain
    }

    /// Adds `context` as the newest context line; the source stays as it was.
    pub fn append<C: IntoContext>(&mut self, context: C)
        ensures
            final(self).source_spec() == old(self).source_spec(),
            final(self).context_spec() == old(self).context_spec().push(context.context_view()),
    {
        let line = context.into_context();
        self.inner.context.push(line);
        assert(self.context_spec() =~= old(self).context_spec().push(context.context_view()));
    }

    /// The error this chain started from.
    pub fn source(&self) -> (source: &I)
        ensures
            *source == self.source_spec(),
    {
        &self.inner.source
    }
}

impl<I> ErrorChain<I> {
    /// Renders the chain with `source` as the text of its source:
    /// `source: <source>`, then each context line, oldest first, on a line
    /// of its own indented by two spaces.
    pub fn render_with(&self, source: &str) -> (text: String)
        ensures
            text@ == render_chain(source@, self.context_spec()),
    {
        let mut text = "source: ".to_owned();
        proof {
            reveal_strlit("source: ");
        }
        text.append(source);
        let n = self.inner.context.len();
        let ghost ctx = self.context_spec();
        assert(ctx.take(0) =~= Seq::<Seq<char>>::empty());
        for i in 0..n
            invariant
                n == self.inner.context@.len(),
                ctx == self.context_spec(),
                text@ == source_label() + source@ + render_context(ctx.take(i as int)),
        {
            proof {
                reveal_strlit("\n  ");
            }
            text.append("\n  ");
            text.append(self.inner.context[i].as_str());
            assert(ctx.take(i + 1).last() == self.inner.context@[i as int]@);
            assert(ctx.take(i + 1).drop_last() =~= ctx.take(i as int));
            assert(text@ =~= source_label() + source@ + render_context(ctx.take(i + 1)));
        }
        assert(ctx.take(n as int) =~= ctx);
        text
    }
}

impl<I: Describe> ErrorChain<I> {
    /// Renders the chain with its source described by [`Describe`].
    pub fn to_string(&self) -> (text: String)
        ensures
            text@ == render_chain(self.source_spec().description(), self.context_spec()),
    {
        let shown = self.inner.source.describe();
        self.render_with(shown.as_str())
    }
}

/// A chain with no context renders as `source: ` followed by its source.
pub proof fn law_bare_chain_rendering(source: Seq<char>)
    ensures
        render_chain(source, Seq::empty()) == source_label() + source,
{
    assert(render_chain(source, Seq::empty()) =~= source_label() + source);
}

/// Appending a context line adds exactly that line, on a line of its own
/// indented by two spaces, to the end of the rendered chain; nothing before
/// it changes.
pub proof fn law_append_extends_rendering(source: Seq<char>, context: Seq<Seq<char>>, line: Seq<char>)
    ensures
        render_chain(source, context.push(line)) == render_chain(source, context) + context_indent() + line,
{
    assert(context.push(line).drop_last() =~= context);
    assert(render_chain(source, context.push(line)) =~= render_chain(source, context) + context_indent() + line);
}

/// Starting a chain from `source` with one context line gives the same
/// chain as starting it bare from `source` and appending that line: the
/// same source and the same context lines, so it renders the same and
/// later appends act the same on both. The premises are what `new`,
/// `append` and `with_context` ensure for the same `source` and `line`,
/// where the conversion of `source` carries a specification.
pub proof fn law_with_context_is_new_then_append<I, S: Into<I>, C: IntoContext>(
    source: S,
    line: C,
    bare: ErrorChain<I>,
    appended: ErrorChain<I>,
    direct: ErrorChain<I>,
)
    requires
        <S as IntoSpec<I>>::obeys_into_spec(),
        bare.source_spec() == source.into_spec(),
        bare.context_spec() == Seq::<Seq<char>>::empty(),
        appended.source_spec() == bare.source_spec(),
        appended.context_spec() == bare.context_spec().push(line.context_view()),
        direct.source_spec() == source.into_spec(),
        direct.context_spec() == seq![line.context_view()],
    ensures
        appended.source_spec() == direct.source_spec(),
        appended.context_spec() == direct.context_spec(),
        forall|shown: Seq<char>|
            render_chain(shown, appended.context_spec()) == #[trigger] render_chain(shown, direct.context_spec()),
{
    assert(appended.context_spec() =~= direct.context_spec());
}

/// However many lines are appended, a chain keeps the source it started
/// from, and its context is the starting context followed by the appended
/// lines in order. `chains[0]` is the starting chain and `chains[i + 1]` is
/// what appending `lines[i]` to `chains[i]` gives (as `append` ensures).
pub proof fn law_appends_keep_source<I>(chains: Seq<ErrorChain<I>>, lines: Seq<Seq<char>>)
    requires
        chains.len() == lines.len() + 1,
        forall|i: int|
            0 <= i < lines.len() ==> {
                &&& (#[trigger] chains[i + 1]).source_spec() == chains[i].source_spec()
                &&& chains[i + 1].context_spec() == chains[i].context_spec().push(lines[i])
            },
    ensures
        chains.last().source_spec() == chains[0].source_spec(),
        chains.last().context_spec() == chains[0].context_spec() + lines,
    decreases lines.len(),
{
    if lines.len() == 0 {
        assert(chains[0].context_spec() + lines =~= chains[0].context_spec());
    } else {
        let k = lines.len() - 1;
        let before = chains.drop_last();
        let earlier = lines.drop_last();
        assert forall|i: int| 0 <= i < earlier.len() implies {
            &&& (#[trigger] before[i + 1]).source_spec() == before[i].source_spec()
            &&& before[i + 1].context_spec() == before[i].context_spec().push(earlier[i])
        } by {
            assert(chains[i + 1] == before[i + 1]);
        }
        law_appends_keep_source(before, earlier);
        assert(chains[k + 1] == chains.last());
        assert(before.last() == chains[k]);
        assert(chains[0].context_spec() + lines =~= (chains[0].context_spec() + earlier).push(lines[k]));
    }
}

/// For a source of the chain's own type, starting a chain with one context
/// line gives the same chain as starting it bare and appending that line,
/// with no premise on conversions. The premises are what `from_source`,
/// `append` and `from_source_with_context` ensure for the same `source` and
/// `line`.
pub proof fn law_from_source_with_context_is_from_source_then_append<I, C: IntoContext>(
    source: I,
    line: C,
    bare: ErrorChain<I>,
    appended: ErrorChain<I>,
    direct: ErrorChain<I>,
)
    requires
        bare.source_spec() == source,
        bare.context_spec() == Seq::<Seq<char>>::empty(),
        appended.source_spec() == bare.source_spec(),
        appended.context_spec() == bare.context_spec().push(line.context_view()),
        direct.source_spec() == source,
        direct.context_spec() == seq![line.context_view()],
    ensures
        appended.source_spec() == direct.source_spec() && appended.source_spec() == source,
        appended.context_spec() == direct.context_spec(),
{
    assert(appended.context_spec() =~= direct.context_spec());
}

/// A chain started from a source of its own type renders as `source: `
/// followed by that source's description, and no context line.
pub proof fn law_fresh_chain_renders_its_source<I: Describe>(source: I, chain: ErrorChain<I>)
    requires
        chain.source_spec() == source,
        chain.context_spec() == Seq::<Seq<char>>::empty(),
    ensures
        render_chain(chain.source_spec().description(), chain.context_spec()) == source_label() + source.description(),
{
    law_bare_chain_rendering(source.description());
}

} // verus!
