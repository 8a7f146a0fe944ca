# resplus

Error values that keep the error they started from together with a chain of
context lines, rendered as

```text
source: <source>
  <oldest context line>
  <newer context line>
```

`src/` is the verified library:

- `chain`: `ErrorChain` (`new`, `with_context`, `append`, `source`,
  `render_with`, `to_string`) and the rendering laws.
- `sync`: `ResultChain` (`about`, `about_else`) turns a failed `Result` into a
  chain; `attach`: `ResultChainAttach` adds a line to an existing chain.
- `invocation`: what `flog!(call, selectors...)` and `attach!` decide: which
  argument positions are shown, the format string, the context line, and the
  laws about them; `expand` models the run-time effect of an invocation on a
  call's result (the generated code gets it through `about_else` or
  `attach_else` and the format string).
- `define`: how `define!` splits its types into sources and target.
- `text`: decimal numbers and comma-separated lists.
- `test_util`: the failing helpers the tests call.

`app/` reads macro input tokens with `syn`, writes the generated code with
`quote`, and holds the asynchronous `FutResultChain`.
