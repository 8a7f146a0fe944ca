use vstd::prelude::*;

use crate::text::{decimal, decimal_text, join_comma, join_comma_text, law_decimal_distinct};

verus! {

/// An integer literal as the macro front end read it.
#[derive(Debug, Clone, Copy, PartialEq, Eq, Structural)]
pub enum IntLit {
    /// The literal's value.
    Value(usize),
    /// The literal does not fit in a `usize`.
    TooLarge,
}

/// One end of a range selector.
#[derive(Debug, Clone, Copy, PartialEq, Eq, Structural)]
pub enum Bound {
    /// The end was left out (`..2`, `1..`, `..`).
    Omitted,
    /// The end is an integer literal.
    Literal(IntLit),
    /// The end is some other expression.
    NotLiteral,
}

/// One argument selector written after the call, as the front end read it.
#[derive(Debug, Clone, Copy, PartialEq, Eq, Structural)]
pub enum SelectorSyntax {
    /// A single argument position, such as `1`.
    Index(IntLit),
    /// A range of argument positions, such as `0..2` or `..`.
    Range(Bound, Bound),
    /// Neither an integer literal nor a range.
    Invalid,
}

/// The leading expression of a macro invocation.
#[derive(Debug, Clone, PartialEq, Eq)]
pub enum CallSyntax {
    /// A function call; `path` is the callee as written, `n_args` the
    /// number of arguments.
    Function { path: String, n_args: usize },
    /// A method call; `name` is the method's name.
    Method { name: String, n_args: usize },
    /// Any other expression.
    NotACall,
}

/// The function or method named in the context line.
#[derive(Debug, Clone, PartialEq, Eq)]
pub enum Callee {
    Function(String),
    Method(String),
}

/// One argument position in the context line.
#[derive(Debug, Clone, Copy, PartialEq, Eq, Structural)]
pub enum FmtArg {
    /// The argument is not shown: it appears as `_`.
    Skipped,
    /// The argument at this position is shown by its value.
    Captured(usize),
}

/// Why a macro invocation is rejected.
#[derive(Debug, Clone, Copy, PartialEq, Eq, Structural)]
pub enum ParseError {
    /// The leading expression is not a function or method call.
    ExpectedFunctionCall,
    /// A range end is not an integer literal.
    ExpectedInteger,
    /// A selector is neither an integer literal nor a range.
    ExpectedIntegerOrRange,
    /// An integer literal does not fit in a `usize`.
    IntegerTooLarge,
}

impl ParseError {
    /// The message the macro reports for the error.
    pub fn message(&self) -> (m: &'static str)
        ensures
            m@ == match *self {
                ParseError::ExpectedFunctionCall => "expected function call"@,
                ParseError::ExpectedInteger => "expected integer"@,
                ParseError::ExpectedIntegerOrRange => "expected integer or range"@,
                ParseError::IntegerTooLarge => "number too large to fit in target type"@,
            },
    {
        match self {
            ParseError::ExpectedFunctionCall => "expected function call",
            ParseError::ExpectedInteger => "expected integer",
            ParseError::ExpectedIntegerOrRange => "expected integer or range",
            ParseError::IntegerTooLarge => "number too large to fit in target type",
        }
    }
}

/// A parsed invocation: the callee, one entry per argument shown in the
/// context line, and the argument positions to capture, in order.
#[derive(Debug)]
pub struct Parsed {
    pub fargs: Vec<FmtArg>,
    pub func: Callee,
    pub n_args: usize,
    pub pargs: Vec<usize>,
}

/// The value of an integer literal.
pub open spec fn lit_value(l: IntLit) -> Result<int, ParseError> {
    match l {
        IntLit::Value(v) => Ok(v as int),
        IntLit::TooLarge => Err(ParseError::IntegerTooLarge),
    }
}

/// The value of a range end, `default` where it was left out.
pub open spec fn bound_value(b: Bound, default: int) -> Result<int, ParseError> {
    match b {
        Bound::Omitted => Ok(default),
        Bound::Literal(l) => lit_value(l),
        Bound::NotLiteral => Err(ParseError::ExpectedInteger),
    }
}

/// The half-open span of argument positions a selector names, for a call
/// with `n` arguments.
pub open spec fn selector_span(s: SelectorSyntax, n: int) -> Result<(int, int), ParseError> {
    match s {
        SelectorSyntax::Index(l) => match lit_value(l) {
            Ok(i) => Ok((i, i + 1)),
            Err(e) => Err(e),
        },
        SelectorSyntax::Range(a, b) => match bound_value(a, 0) {
            Err(e) => Err(e),
            Ok(start) => match bound_value(b, n) {
                Err(e) => Err(e),
                Ok(end) => Ok((start, end)),
            },
        },
        SelectorSyntax::Invalid => Err(ParseError::ExpectedIntegerOrRange),
    }
}

/// `k` skipped positions (none when `k` is not positive).
pub open spec fn skips(k: int) -> Seq<FmtArg> {
    Seq::new(if k > 0 { k as nat } else { 0 }, |j: int| FmtArg::Skipped)
}

/// The positions `start..end` as they appear in the context line.
pub open spec fn captures(start: int, end: int) -> Seq<FmtArg> {
    Seq::new(if end > start { (end - start) as nat } else { 0 }, |j: int| FmtArg::Captured((start + j) as usize))
}

/// The positions `start..end`.
pub open spec fn span_indices(start: int, end: int) -> Seq<usize> {
    Seq::new(if end > start { (end - start) as nat } else { 0 }, |j: int| (start + j) as usize)
}

/// Reads the selectors one after another. Before each selector's span the
/// positions not yet claimed are shown as `_`; the span's positions are
/// captured; the next unclaimed position becomes the span's end. The state
/// is (next unclaimed position, context entries, captured positions).
pub open spec fn scan(n: int, sels: Seq<SelectorSyntax>) -> Result<(int, Seq<FmtArg>, Seq<usize>), ParseError>
    decreases sels.len(),
{
    if sels.len() == 0 {
        Ok((0, Seq::empty(), Seq::empty()))
    } else {
        match scan(n, sels.drop_last()) {
            Err(e) => Err(e),
            Ok((skip, fargs, pargs)) => match selector_span(sels.last(), n) {
                Err(e) => Err(e),
                Ok((start, end)) => Ok(
                    (end, fargs + skips(start - skip) + captures(start, end), pargs + span_indices(start, end)),
                ),
            },
        }
    }
}

/// A span whose positions all exist among `n` arguments (an empty span
/// always does).
pub open spec fn span_fits(s: SelectorSyntax, n: int) -> bool {
    match selector_span(s, n) {
        Ok((start, end)) => start >= end || end <= n,
        Err(_) => true,
    }
}

/// Every selector that is read (all of them up to the first rejected one)
/// names only existing argument positions.
pub open spec fn selectors_fit(n: int, sels: Seq<SelectorSyntax>) -> bool
    decreases sels.len(),
{
    sels.len() == 0 || (selectors_fit(n, sels.drop_last()) && (scan(n, sels.drop_last()) is Ok
        ==> span_fits(sels.last(), n)))
}

/// The number of arguments of the call (zero for anything else).
pub open spec fn call_args(call: CallSyntax) -> int {
    match call {
        CallSyntax::Function { n_args, .. } => n_args as int,
        CallSyntax::Method { n_args, .. } => n_args as int,
        CallSyntax::NotACall => 0,
    }
}

/// The callee of the call.
pub open spec fn callee_of(call: CallSyntax) -> Callee {
    match call {
        CallSyntax::Function { path, .. } => Callee::Function(path),
        CallSyntax::Method { name, .. } => Callee::Method(name),
        CallSyntax::NotACall => arbitrary(),
    }
}

/// What parsing an invocation gives: the context entries (the scanned ones
/// followed by `_` for every position after the last span) and the
/// captured positions.
pub open spec fn parse_result(call: CallSyntax, sels: Seq<SelectorSyntax>) -> Result<(Seq<FmtArg>, Seq<usize>), ParseError> {
    if call is NotACall {
        Err(ParseError::ExpectedFunctionCall)
    } else {
        match scan(call_args(call), sels) {
            Err(e) => Err(e),
            Ok((skip, fargs, pargs)) => Ok((fargs + skips(call_args(call) - skip), pargs)),
        }
    }
}

/// A rejected prefix rejects the whole selector list with the same error.
proof fn lemma_scan_err_extends(n: int, sels: Seq<SelectorSyntax>, k: int)
    requires
        0 <= k <= sels.len(),
        scan(n, sels.take(k)) is Err,
    ensures
        scan(n, sels) == scan(n, sels.take(k)),
    decreases sels.len() - k,
{
    if k < sels.len() {
        assert(sels.take(k + 1).drop_last() =~= sels.take(k));
        lemma_scan_err_extends(n, sels, k + 1);
    } else {
        assert(sels.take(k) =~= sels);
    }
}

/// Fitting selectors fit on every prefix.
proof fn lemma_fit_prefix(n: int, sels: Seq<SelectorSyntax>, k: int)
    requires
        0 <= k <= sels.len(),
        selectors_fit(n, sels),
    ensures
        selectors_fit(n, sels.take(k)),
    decreases sels.len() - k,
{
    if k < sels.len() {
        lemma_fit_prefix(n, sels.drop_last(), k);
        assert(sels.drop_last().take(k) =~= sels.take(k));
    } else {
        assert(sels.take(k) =~= sels);
    }
}

fn lit_exec(l: IntLit) -> (r: Result<usize, ParseError>)
    ensures
        match r {
            Ok(v) => lit_value(l) == Ok::<int, ParseError>(v as int),
            Err(e) => lit_value(l) == Err::<int, ParseError>(e),
        },
{
    match l {
        IntLit::Value(v) => Ok(v),
        IntLit::TooLarge => Err(ParseError::IntegerTooLarge),
    }
}

fn bound_exec(b: Bound, default: usize) -> (r: Result<usize, ParseError>)
    ensures
        match r {
            Ok(v) => bound_value(b, default as int) == Ok::<int, ParseError>(v as int),
            Err(e) => bound_value(b, default as int) == Err::<int, ParseError>(e),
        },
{
    match b {
        Bound::Omitted => Ok(default),
        Bound::Literal(l) => lit_exec(l),
        Bound::NotLiteral => Err(ParseError::ExpectedInteger),
    }
}

/// The span of a selector whose positions exist, or why it is rejected.
fn span_exec(s: SelectorSyntax, n: usize) -> (r: Result<(usize, usize), ParseError>)
    requires
        span_fits(s, n as int),
    ensures
        match r {
            Ok((start, end)) => selector_span(s, n as int) == Ok::<(int, int), ParseError>(
                (start as int, end as int),
            ),
            Err(e) => selector_span(s, n as int) == Err::<(int, int), ParseError>(e),
        },
{
    match s {
        SelectorSyntax::Index(l) => match lit_exec(l) {
            Ok(i) => Ok((i, i + 1)),
            Err(e) => Err(e),
        },
        SelectorSyntax::Range(a, b) => match bound_exec(a, 0) {
            Err(e) => Err(e),
            Ok(start) => match bound_exec(b, n) {
                Err(e) => Err(e),
                Ok(end) => Ok((start, end)),
            },
        },
        SelectorSyntax::Invalid => Err(ParseError::ExpectedIntegerOrRange),
    }
}

impl Parsed {
    /// Parses an invocation: the leading call and the selectors that follow
    /// it. Each selector's positions are captured; the positions before it
    /// that no earlier selector claimed are shown as `_`, and so are the
    /// positions after the last one.
    pub fn parse(call: CallSyntax, selectors: &Vec<SelectorSyntax>) -> (r: Result<Parsed, ParseError>)
        requires
            !(call is NotACall) ==> selectors_fit(call_args(call), selectors@),
        ensures
            match r {
                Ok(p) => {
                    &&& parse_result(call, selectors@) == Ok::<(Seq<FmtArg>, Seq<usize>), ParseError>(
                        (p.fargs@, p.pargs@),
                    )
                    &&& p.func == callee_of(call)
                    &&& (call matches CallSyntax::Function { path, .. } ==> p.func == Callee::Function(path))
                    &&& (call matches CallSyntax::Method { name, .. } ==> p.func == Callee::Method(name))
                    &&& p.n_args as int == call_args(call)
                    &&& captures_within(p.fargs@, p.n_args as int)
                    &&& forall|k: int| 0 <= k < p.pargs@.len() ==> #[trigger] p.pargs@[k] < p.n_args
                },
                Err(e) => parse_result(call, selectors@) == Err::<(Seq<FmtArg>, Seq<usize>), ParseError>(e),
            },
    {
        let ghost call0 = call;
        let (func, n) = match call {
            CallSyntax::Function { path, n_args } => (Callee::Function(path), n_args),
            CallSyntax::Method { name, n_args } => (Callee::Method(name), n_args),
            CallSyntax::NotACall => {
                return Err(ParseError::ExpectedFunctionCall);
            },
        };
        let ghost sels = selectors@;
        let mut fargs: Vec<FmtArg> = Vec::new();
        let mut pargs: Vec<usize> = Vec::new();
        let mut skip: usize = 0;
        let len = selectors.len();
        let mut k: usize = 0;
        assert(sels.take(0) =~= Seq::<SelectorSyntax>::empty());
        while k < len
            invariant
                0 <= k <= len,
                len == sels.len(),
                sels == selectors@,
                n as int == call_args(call0),
                !(call0 is NotACall),
                call0 == call,
                selectors_fit(n as int, sels),
                scan(n as int, sels.take(k as int)) == Ok::<(int, Seq<FmtArg>, Seq<usize>), ParseError>(
                    (skip as int, fargs@, pargs@),
                ),
                captures_within(fargs@, n as int),
                forall|m: int| 0 <= m < pargs@.len() ==> #[trigger] pargs@[m] < n,
            decreases len - k,
        {
            proof {
                lemma_fit_prefix(n as int, sels, k + 1);
                assert(sels.take(k + 1).drop_last() =~= sels.take(k as int));
                assert(sels.take(k + 1).last() == sels[k as int]);
            }
            let sel = selectors[k];
            let (start, end) = match span_exec(sel, n) {
                Ok(span) => span,
                Err(e) => {
                    proof {
                        assert(sel == sels[k as int]);
                        assert(scan(n as int, sels.take(k + 1)) == Err::<(int, Seq<FmtArg>, Seq<usize>), ParseError>(e));
                        lemma_scan_err_extends(n as int, sels, k + 1);
                        assert(scan(n as int, sels) == Err::<(int, Seq<FmtArg>, Seq<usize>), ParseError>(e));
                    }
                    return Err(e);
                },
            };
            let ghost f0 = fargs@;
            let ghost p0 = pargs@;
            let ghost skip0 = skip as int;
            let mut c = skip;
            while c < start
                invariant
                    skip0 <= c,
                    skip0 < start ==> c <= start,
                    skip0 >= start ==> c == skip0,
                    fargs@ == f0 + skips(c - skip0),
                    captures_within(fargs@, n as int),
                decreases start - c,
            {
                fargs.push(FmtArg::Skipped);
                c = c + 1;
                assert(fargs@ =~= f0 + skips(c - skip0));
            }
            assert(skips(c - skip0) =~= skips(start - skip0));
            let ghost f1 = fargs@;
            assert(f1 =~= f1 + captures(start as int, start as int));
            assert(p0 =~= p0 + span_indices(start as int, start as int));
            let mut i = start;
            while i < end
                invariant
                    start <= i,
                    start < end ==> i <= end,
                    start >= end ==> i == start,
                    start < end ==> end <= n,
                    fargs@ == f1 + captures(start as int, i as int),
                    pargs@ == p0 + span_indices(start as int, i as int),
                    captures_within(fargs@, n as int),
                    forall|m: int| 0 <= m < pargs@.len() ==> #[trigger] pargs@[m] < n,
                decreases end - i,
            {
                fargs.push(FmtArg::Captured(i));
                pargs.push(i);
                i = i + 1;
                assert(fargs@ =~= f1 + captures(start as int, i as int));
                assert(pargs@ =~= p0 + span_indices(start as int, i as int));
            }
            assert(captures(start as int, i as int) =~= captures(start as int, end as int));
            assert(span_indices(start as int, i as int) =~= span_indices(start as int, end as int));
            skip = end;
            k = k + 1;
        }
        assert(sels.take(len as int) =~= sels);
        let ghost f2 = fargs@;
        let ghost skip2 = skip as int;
        while skip < n
            invariant
                skip2 <= skip,
                skip2 < n ==> skip <= n,
                skip2 >= n ==> skip == skip2,
                fargs@ == f2 + skips(skip - skip2),
                captures_within(fargs@, n as int),
            decreases n - skip,
        {
            fargs.push(FmtArg::Skipped);
            skip = skip + 1;
            assert(fargs@ =~= f2 + skips(skip - skip2));
        }
        assert(skips(skip - skip2) =~= skips(n - skip2));
        Ok(Parsed { fargs, func, n_args: n, pargs })
    }
}

/// The name of the callee as it appears in the context line.
pub open spec fn callee_name(c: Callee) -> Seq<char> {
    match c {
        Callee::Function(path) => path@,
        Callee::Method(name) => name@,
    }
}

/// The name of the temporary that holds the argument at position `i`:
/// two underscores and the position in decimal.
pub open spec fn tmp_ident(i: usize) -> Seq<char> {
    seq!['_', '_'] + decimal(i as nat)
}

/// The placeholder for the argument at position `i` in the format string.
pub open spec fn placeholder(i: usize) -> Seq<char> {
    seq!['{'] + tmp_ident(i) + seq!['}']
}

/// An entry of the format string: `_` or a placeholder.
pub open spec fn template_arg(a: FmtArg) -> Seq<char> {
    match a {
        FmtArg::Skipped => seq!['_'],
        FmtArg::Captured(i) => placeholder(i),
    }
}

/// An entry of the context line: `_`, or the shown value of the argument.
pub open spec fn shown_arg(a: FmtArg, shown: Seq<Seq<char>>) -> Seq<char> {
    match a {
        FmtArg::Skipped => seq!['_'],
        FmtArg::Captured(i) => shown[i as int],
    }
}

/// A call written out: `name(arg, arg, ...)`.
pub open spec fn call_text(name: Seq<char>, args: Seq<Seq<char>>) -> Seq<char> {
    name + seq!['('] + join_comma(args) + seq![')']
}

/// The format string of a parsed invocation.
pub open spec fn format_spec(name: Seq<char>, fargs: Seq<FmtArg>) -> Seq<char> {
    call_text(name, fargs.map_values(|a: FmtArg| template_arg(a)))
}

/// The context line of a parsed invocation whose arguments show as `shown`.
pub open spec fn context_spec(name: Seq<char>, fargs: Seq<FmtArg>, shown: Seq<Seq<char>>) -> Seq<char> {
    call_text(name, fargs.map_values(|a: FmtArg| shown_arg(a, shown)))
}

/// Every captured position names one of the shown values.
pub open spec fn captures_within(fargs: Seq<FmtArg>, len: int) -> bool {
    forall|j: int| 0 <= j < fargs.len() ==> (#[trigger] fargs[j] matches FmtArg::Captured(i) ==> i < len)
}

/// The name of the temporary that holds the argument at position `i`.
pub fn tmp_name(i: usize) -> (name: String)
    ensures
        name@ == tmp_ident(i),
{
    proof {
        reveal_strlit("__");
    }
    let mut name = "__".to_owned();
    let digits = decimal_text(i);
    name.append(digits.as_str());
    name
}

fn wrap_call(name: &String, parts: &Vec<String>) -> (text: String)
    ensures
        text@ == call_text(name@, parts@.map_values(|p: String| p@)),
{
    proof {
        reveal_strlit("(");
        reveal_strlit(")");
    }
    let mut text = name.clone();
    text.append("(");
    let args = join_comma_text(parts);
    text.append(args.as_str());
    text.append(")");
    text
}

impl Parsed {
    /// The name of the callee: the function's path or the method's name.
    pub fn fmt_func(&self) -> (name: String)
        ensures
            name@ == callee_name(self.func),
    {
        match &self.func {
            Callee::Function(path) => path.clone(),
            Callee::Method(name) => name.clone(),
        }
    }

    /// The format string of the context line: the callee, then in brackets
    /// `_` for each argument not shown and `{__i}` for each shown one.
    pub fn format_string(&self) -> (text: String)
        ensures
            text@ == format_spec(callee_name(self.func), self.fargs@),
    {
        let mut parts: Vec<String> = Vec::new();
        let n = self.fargs.len();
        for j in 0..n
            invariant
                n == self.fargs@.len(),
                parts@.len() == j,
                forall|m: int| 0 <= m < j ==> (#[trigger] parts@[m])@ == template_arg(self.fargs@[m]),
        {
            proof {
                reveal_strlit("_");
                reveal_strlit("{");
                reveal_strlit("}");
            }
            let part = match self.fargs[j] {
                FmtArg::Skipped => "_".to_owned(),
                FmtArg::Captured(i) => {
                    let mut p = "{".to_owned();
                    let id = tmp_name(i);
                    p.append(id.as_str());
                    p.append("}");
                    p
                },
            };
            parts.push(part);
        }
        let name = self.fmt_func();
        let text = wrap_call(&name, &parts);
        assert(parts@.map_values(|p: String| p@) =~= self.fargs@.map_values(|a: FmtArg| template_arg(a)));
        text
    }

    /// The context line for a call whose argument at position `i` shows as
    /// `shown[i]`: the callee, then in brackets `_` for each argument not
    /// shown and the shown value of each captured one.
    pub fn context(&self, shown: &Vec<String>) -> (text: String)
        requires
            captures_within(self.fargs@, shown@.len() as int),
        ensures
            text@ == context_spec(callee_name(self.func), self.fargs@, shown@.map_values(|s: String| s@)),
    {
        let ghost views = shown@.map_values(|s: String| s@);
        let mut parts: Vec<String> = Vec::new();
        let n = self.fargs.len();
        for j in 0..n
            invariant
                n == self.fargs@.len(),
                captures_within(self.fargs@, shown@.len() as int),
                views == shown@.map_values(|s: String| s@),
                parts@.len() == j,
                forall|m: int| 0 <= m < j ==> (#[trigger] parts@[m])@ == shown_arg(self.fargs@[m], views),
        {
            proof {
                reveal_strlit("_");
            }
            let a = self.fargs[j];
            assert(self.fargs@[j as int] == a);
            let part = match a {
                FmtArg::Skipped => "_".to_owned(),
                FmtArg::Captured(i) => shown[i].clone(),
            };
            parts.push(part);
        }
        let name = self.fmt_func();
        let text = wrap_call(&name, &parts);
        assert(parts@.map_values(|p: String| p@) =~= self.fargs@.map_values(|a: FmtArg| shown_arg(a, views)));
        text
    }
}

/// Once a prefix is rejected, the selectors after it are never read, so the
/// whole list fits when that prefix does.
proof fn lemma_fit_after_err(n: int, sels: Seq<SelectorSyntax>, k: int)
    requires
        0 <= k <= sels.len(),
        scan(n, sels.take(k)) is Err,
        selectors_fit(n, sels.take(k)),
    ensures
        selectors_fit(n, sels),
    decreases sels.len() - k,
{
    if k < sels.len() {
        let next = sels.take(k + 1);
        assert(next.drop_last() =~= sels.take(k));
        assert(next.take(k) =~= sels.take(k));
        lemma_scan_err_extends(n, next, k);
        lemma_fit_after_err(n, sels, k + 1);
    } else {
        assert(sels.take(k) =~= sels);
    }
}

/// Whether every selector that parsing reads names only existing argument
/// positions; parsing requires it of a call.
pub fn selectors_fit_check(n: usize, selectors: &Vec<SelectorSyntax>) -> (fits: bool)
    ensures
        fits == selectors_fit(n as int, selectors@),
{
    let ghost sels = selectors@;
    let len = selectors.len();
    let mut k: usize = 0;
    assert(sels.take(0) =~= Seq::<SelectorSyntax>::empty());
    while k < len
        invariant
            0 <= k <= len,
            len == sels.len(),
            sels == selectors@,
            scan(n as int, sels.take(k as int)) is Ok,
            selectors_fit(n as int, sels.take(k as int)),
        decreases len - k,
    {
        proof {
            let next = sels.take(k + 1);
            assert(next.drop_last() =~= sels.take(k as int));
            assert(next.last() == sels[k as int]);
        }
        let (_start, end_fits) = match selectors[k] {
            SelectorSyntax::Index(IntLit::Value(i)) => (i, i < n),
            SelectorSyntax::Range(a, b) => match bound_exec(a, 0) {
                Ok(start) => match bound_exec(b, n) {
                    Ok(end) => (start, start >= end || end <= n),
                    Err(_) => {
                        proof {
                            lemma_fit_after_err(n as int, sels, k + 1);
                        }
                        return true;
                    },
                },
                Err(_) => {
                    proof {
                        lemma_fit_after_err(n as int, sels, k + 1);
                    }
                    return true;
                },
            },
            _ => {
                proof {
                    lemma_fit_after_err(n as int, sels, k + 1);
                }
                return true;
            },
        };
        if !end_fits {
            proof {
                if selectors_fit(n as int, sels) {
                    lemma_fit_prefix(n as int, sels, k + 1);
                }
            }
            return false;
        }
        k = k + 1;
    }
    assert(sels.take(len as int) =~= sels);
    true
}

/// Where scanning the selectors leaves the next unclaimed position.
pub open spec fn scan_end(n: int, sels: Seq<SelectorSyntax>) -> int {
    match scan(n, sels) {
        Ok((skip, _, _)) => skip,
        Err(_) => 0,
    }
}

/// Every selector is accepted, and its span starts no earlier than the
/// previous one ended and ends within the `n` arguments.
pub open spec fn ordered_spans(n: int, sels: Seq<SelectorSyntax>) -> bool
    decreases sels.len(),
{
    sels.len() == 0 || (ordered_spans(n, sels.drop_last()) && match selector_span(sels.last(), n) {
        Ok((start, end)) => scan_end(n, sels.drop_last()) <= start <= end <= n,
        Err(_) => false,
    })
}

/// Whether argument position `j` lies in the span of one of the selectors.
pub open spec fn covered(n: int, sels: Seq<SelectorSyntax>, j: int) -> bool
    decreases sels.len(),
{
    sels.len() > 0 && (covered(n, sels.drop_last(), j) || match selector_span(sels.last(), n) {
        Ok((start, end)) => start <= j < end,
        Err(_) => false,
    })
}

proof fn lemma_ordered_scan(n: int, sels: Seq<SelectorSyntax>)
    requires
        0 <= n <= usize::MAX,
        ordered_spans(n, sels),
    ensures
        selectors_fit(n, sels),
        scan(n, sels) matches Ok((skip, fargs, pargs)) && {
            &&& 0 <= skip <= n
            &&& fargs.len() == skip
            &&& forall|j: int| 0 <= j < skip ==> #[trigger] fargs[j] == (if covered(n, sels, j) {
                FmtArg::Captured(j as usize)
            } else {
                FmtArg::Skipped
            })
            &&& forall|j: int| #[trigger] covered(n, sels, j) ==> 0 <= j < skip
            &&& forall|k: int| 0 <= k < pargs.len() ==> covered(n, sels, #[trigger] pargs[k] as int) && pargs[k] < skip
            &&& forall|k1: int, k2: int| 0 <= k1 < k2 < pargs.len() ==> #[trigger] pargs[k1] < #[trigger] pargs[k2]
            &&& forall|j: int| #[trigger] covered(n, sels, j) ==> pargs.contains(j as usize)
        },
    decreases sels.len(),
{
    if sels.len() > 0 {
        let prev = sels.drop_last();
        lemma_ordered_scan(n, prev);
        let (skip0, f0, p0) = scan(n, prev).unwrap();
        let (s, e) = selector_span(sels.last(), n).unwrap();
        let (skip, fargs, pargs) = scan(n, sels).unwrap();
        assert(skip == e);
        assert(fargs == f0 + skips(s - skip0) + captures(s, e));
        assert(pargs == p0 + span_indices(s, e));
        assert(fargs.len() == e);
        assert forall|j: int| 0 <= j < skip implies #[trigger] fargs[j] == (if covered(n, sels, j) {
            FmtArg::Captured(j as usize)
        } else {
            FmtArg::Skipped
        }) by {
            if j < skip0 {
                assert(fargs[j] == f0[j]);
                assert(f0[j] == (if covered(n, prev, j) { FmtArg::Captured(j as usize) } else { FmtArg::Skipped }));
            } else if j < s {
                assert(fargs[j] == skips(s - skip0)[j - skip0]);
                if covered(n, prev, j) {
                    assert(j < skip0);
                }
            } else {
                assert(fargs[j] == captures(s, e)[j - s]);
            }
        }
        assert forall|j: int| #[trigger] covered(n, sels, j) implies 0 <= j < skip by {
            if covered(n, prev, j) {
            }
        }
        assert forall|k: int| 0 <= k < pargs.len() implies covered(n, sels, #[trigger] pargs[k] as int) && pargs[k] < skip by {
            if k < p0.len() {
                assert(pargs[k] == p0[k]);
            } else {
                assert(pargs[k] == span_indices(s, e)[k - p0.len()]);
            }
        }
        assert forall|k1: int, k2: int| 0 <= k1 < k2 < pargs.len() implies #[trigger] pargs[k1] < #[trigger] pargs[k2] by {
            if k2 < p0.len() {
                assert(pargs[k1] == p0[k1]);
                assert(pargs[k2] == p0[k2]);
            } else if k1 < p0.len() {
                assert(pargs[k1] == p0[k1]);
                assert(pargs[k2] == span_indices(s, e)[k2 - p0.len()]);
            } else {
                assert(pargs[k1] == span_indices(s, e)[k1 - p0.len()]);
                assert(pargs[k2] == span_indices(s, e)[k2 - p0.len()]);
            }
        }
        assert forall|j: int| #[trigger] covered(n, sels, j) implies pargs.contains(j as usize) by {
            if covered(n, prev, j) {
                let k = choose|k: int| 0 <= k < p0.len() && p0[k] == j as usize;
                assert(pargs[k] == p0[k]);
            } else {
                let k = p0.len() + (j - s);
                assert(pargs[k] == span_indices(s, e)[j - s]);
            }
        }
    } else {
        assert forall|j: int| #[trigger] covered(n, sels, j) implies 0 <= j < 0 by {
        }
    }
}

/// When the selectors name spans in order, each within the arguments,
/// parsing succeeds and the context line has exactly one entry per
/// argument: the position itself where a selector covers it and `_`
/// elsewhere; the captured positions are exactly the covered ones, each
/// once, in increasing order.
pub proof fn law_ordered_selectors_mark_positions(call: CallSyntax, sels: Seq<SelectorSyntax>)
    requires
        !(call is NotACall),
        ordered_spans(call_args(call), sels),
    ensures
        selectors_fit(call_args(call), sels),
        parse_result(call, sels) matches Ok((fargs, pargs)) && {
            &&& fargs.len() == call_args(call)
            &&& forall|j: int| 0 <= j < fargs.len() ==> #[trigger] fargs[j] == (if covered(call_args(call), sels, j) {
                FmtArg::Captured(j as usize)
            } else {
                FmtArg::Skipped
            })
            &&& forall|k: int| 0 <= k < pargs.len() ==> covered(call_args(call), sels, #[trigger] pargs[k] as int)
            &&& forall|k1: int, k2: int| 0 <= k1 < k2 < pargs.len() ==> #[trigger] pargs[k1] < #[trigger] pargs[k2]
            &&& forall|j: int| #[trigger] covered(call_args(call), sels, j) ==> pargs.contains(j as usize)
        },
{
    let n = call_args(call);
    lemma_ordered_scan(n, sels);
    let (skip, f0, p0) = scan(n, sels).unwrap();
    let (fargs, pargs) = parse_result(call, sels).unwrap();
    assert(fargs == f0 + skips(n - skip));
    assert forall|j: int| 0 <= j < fargs.len() implies #[trigger] fargs[j] == (if covered(n, sels, j) {
        FmtArg::Captured(j as usize)
    } else {
        FmtArg::Skipped
    }) by {
        if j < skip {
            assert(fargs[j] == f0[j]);
        } else {
            assert(fargs[j] == skips(n - skip)[j - skip]);
        }
    }
}

/// Arguments at distinct positions get temporaries of distinct names, so
/// the placeholders of a format string never mix two arguments up.
pub proof fn law_tmp_names_distinct(i: usize, j: usize)
    requires
        i != j,
    ensures
        tmp_ident(i) != tmp_ident(j),
        placeholder(i) != placeholder(j),
{
    law_decimal_distinct(i as nat, j as nat);
    if tmp_ident(i) == tmp_ident(j) {
        assert(tmp_ident(i).subrange(2, tmp_ident(i).len() as int) =~= decimal(i as nat));
        assert(tmp_ident(j).subrange(2, tmp_ident(j).len() as int) =~= decimal(j as nat));
    }
    if placeholder(i) == placeholder(j) {
        assert(placeholder(i).subrange(1, placeholder(i).len() - 1) =~= tmp_ident(i));
        assert(placeholder(j).subrange(1, placeholder(j).len() - 1) =~= tmp_ident(j));
    }
}

/// The context line is the format string with its placeholders filled in:
/// where each argument shows as its own placeholder, the two coincide.
pub proof fn law_context_fills_format(name: Seq<char>, fargs: Seq<FmtArg>, shown: Seq<Seq<char>>)
    requires
        captures_within(fargs, shown.len() as int),
        forall|i: int| 0 <= i < shown.len() ==> #[trigger] shown[i] == placeholder(i as usize),
    ensures
        context_spec(name, fargs, shown) == format_spec(name, fargs),
{
    assert forall|j: int| 0 <= j < fargs.len() implies shown_arg(fargs[j], shown) == template_arg(fargs[j]) by {
        if let FmtArg::Captured(i) = fargs[j] {
            assert(shown[i as int] == placeholder(i));
        }
    }
    assert(fargs.map_values(|a: FmtArg| shown_arg(a, shown)) =~= fargs.map_values(|a: FmtArg| template_arg(a)));
}

/// Parsing keeps the kind of the call: a function call's callee is the
/// function's path, a method call's callee is the method's name, and
/// anything else is rejected.
pub proof fn law_parse_keeps_call_kind(call: CallSyntax, sels: Seq<SelectorSyntax>)
    ensures
        call matches CallSyntax::Function { path, .. } ==> callee_of(call) == Callee::Function(path),
        call matches CallSyntax::Method { name, .. } ==> callee_of(call) == Callee::Method(name),
        call is NotACall ==> parse_result(call, sels) == Err::<(Seq<FmtArg>, Seq<usize>), ParseError>(
            ParseError::ExpectedFunctionCall,
        ),
{
}

proof fn lemma_single_span(call: CallSyntax, sel: SelectorSyntax, start: int, end: int)
    requires
        !(call is NotACall),
        0 <= start <= end <= call_args(call),
        selector_span(sel, call_args(call)) == Ok::<(int, int), ParseError>((start, end)),
    ensures
        selectors_fit(call_args(call), seq![sel]),
        parse_result(call, seq![sel]) matches Ok((fargs, pargs)) && {
            &&& fargs.len() == call_args(call)
            &&& forall|j: int| 0 <= j < fargs.len() ==> #[trigger] fargs[j] == (if start <= j < end {
                FmtArg::Captured(j as usize)
            } else {
                FmtArg::Skipped
            })
            &&& pargs.len() == end - start
            &&& forall|k: int| 0 <= k < pargs.len() ==> #[trigger] pargs[k] == start + k
        },
{
    let n = call_args(call);
    let sels = seq![sel];
    assert(sels.drop_last() =~= Seq::<SelectorSyntax>::empty());
    assert(sels.last() == sel);
    let empty_f = Seq::<FmtArg>::empty();
    let empty_p = Seq::<usize>::empty();
    assert(scan(n, sels.drop_last()) == Ok::<(int, Seq<FmtArg>, Seq<usize>), ParseError>((0, empty_f, empty_p)));
    assert(selectors_fit(n, sels.drop_last()));
    assert(span_fits(sel, n));
    let f0 = empty_f + skips(start - 0) + captures(start, end);
    let p0 = empty_p + span_indices(start, end);
    assert(scan(n, sels) == Ok::<(int, Seq<FmtArg>, Seq<usize>), ParseError>((end, f0, p0)));
    let fargs = f0 + skips(n - end);
    assert(parse_result(call, sels) == Ok::<(Seq<FmtArg>, Seq<usize>), ParseError>((fargs, p0)));
    assert forall|j: int| 0 <= j < fargs.len() implies #[trigger] fargs[j] == (if start <= j < end {
        FmtArg::Captured(j as usize)
    } else {
        FmtArg::Skipped
    }) by {
        if j < start {
            assert(fargs[j] == skips(start)[j]);
        } else if j < end {
            assert(fargs[j] == captures(start, end)[j - start]);
        } else {
            assert(fargs[j] == skips(n - end)[j - end]);
        }
    }
    assert forall|k: int| 0 <= k < p0.len() implies #[trigger] p0[k] == start + k by {
        assert(p0[k] == span_indices(start, end)[k]);
    }
}

/// A single range selector `a..b` with integer-literal ends, within the
/// call's `n` arguments, captures exactly the positions `a, a + 1, ...,
/// b - 1` in that order: those show by their value and every other position
/// shows as `_`.
pub proof fn law_literal_range_captures_its_positions(call: CallSyntax, a: usize, b: usize)
    requires
        !(call is NotACall),
        a <= b <= call_args(call),
    ensures
        selectors_fit(
            call_args(call),
            seq![SelectorSyntax::Range(Bound::Literal(IntLit::Value(a)), Bound::Literal(IntLit::Value(b)))],
        ),
        parse_result(
            call,
            seq![SelectorSyntax::Range(Bound::Literal(IntLit::Value(a)), Bound::Literal(IntLit::Value(b)))],
        ) matches Ok((fargs, pargs)) && {
            &&& fargs.len() == call_args(call)
            &&& forall|j: int| 0 <= j < fargs.len() ==> #[trigger] fargs[j] == (if a <= j < b {
                FmtArg::Captured(j as usize)
            } else {
                FmtArg::Skipped
            })
            &&& pargs.len() == b - a
            &&& forall|k: int| 0 <= k < pargs.len() ==> #[trigger] pargs[k] == a + k
        },
{
    let sel = SelectorSyntax::Range(Bound::Literal(IntLit::Value(a)), Bound::Literal(IntLit::Value(b)));
    assert(seq![sel].drop_last() =~= Seq::<SelectorSyntax>::empty());
    lemma_single_span(call, sel, a as int, b as int);
}

/// A single index selector `i` below the call's `n` arguments captures
/// exactly position `i`; every other position shows as `_`.
pub proof fn law_index_captures_its_position(call: CallSyntax, i: usize)
    requires
        !(call is NotACall),
        i < call_args(call),
    ensures
        selectors_fit(call_args(call), seq![SelectorSyntax::Index(IntLit::Value(i))]),
        parse_result(call, seq![SelectorSyntax::Index(IntLit::Value(i))]) matches Ok((fargs, pargs)) && {
            &&& fargs.len() == call_args(call)
            &&& forall|j: int| 0 <= j < fargs.len() ==> #[trigger] fargs[j] == (if j == i {
                FmtArg::Captured(j as usize)
            } else {
                FmtArg::Skipped
            })
            &&& pargs == seq![i]
        },
{
    let sel = SelectorSyntax::Index(IntLit::Value(i));
    assert(seq![sel].drop_last() =~= Seq::<SelectorSyntax>::empty());
    lemma_single_span(call, sel, i as int, i + 1);
    let (fargs, pargs) = parse_result(call, seq![sel]).unwrap();
    assert(pargs =~= seq![i]);
}

/// The selector `..` shows every argument: the context line of a call whose
/// arguments show as `shown` lists all of them, in order, separated by a
/// comma and a space.
pub proof fn law_full_range_shows_every_argument(call: CallSyntax, shown: Seq<Seq<char>>)
    requires
        !(call is NotACall),
        shown.len() == call_args(call),
    ensures
        selectors_fit(call_args(call), seq![SelectorSyntax::Range(Bound::Omitted, Bound::Omitted)]),
        parse_result(call, seq![SelectorSyntax::Range(Bound::Omitted, Bound::Omitted)]) matches Ok((fargs, pargs)) && {
            &&& captures_within(fargs, shown.len() as int)
            &&& forall|name: Seq<char>| #[trigger] context_spec(name, fargs, shown) == name + seq!['('] + join_comma(shown) + seq![')']
            &&& pargs.len() == shown.len()
            &&& forall|k: int| 0 <= k < pargs.len() ==> #[trigger] pargs[k] == k
        },
{
    let sel = SelectorSyntax::Range(Bound::Omitted, Bound::Omitted);
    let n = call_args(call);
    assert(seq![sel].drop_last() =~= Seq::<SelectorSyntax>::empty());
    assert(n >= 0);
    lemma_single_span(call, sel, 0, n);
    let (fargs, pargs) = parse_result(call, seq![sel]).unwrap();
    assert(fargs.map_values(|a: FmtArg| shown_arg(a, shown)) =~= shown);
}

} // verus!
