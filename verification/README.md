# dataflow-rs

A message-processing workflow engine's core, written in Verus. The
functions in `src/` are verified against their contracts. Where a result
is the JSONLogic engine's or the clock's (evaluating an expression,
building an engine), the contract states what holds whatever came back,
states the result exactly where it does not rest on the engine's choice (a
literal expression is itself; a `{"var": "<path>"}` reads the context it
is given), and a separate verified function states what each outcome leads
to. What a reader or the compiler gives for a text is named by that text,
so the values that reach the library are tied to what was read.

- `src/` — the library: the JSON model (`json`, `json_text`, `paths`), the
  authoring checks over workflow documents (`authoring`, `steps`,
  `expressions`, `secret_check`, `template_keys`, `for_each`,
  `registry_check`), the built-in function vocabulary and configs (`config`,
  `map`, `parse`, `publish`, `filter`, `log`, `validation`, `integration`,
  `operators`, `function`, and the readers of the integrations' inputs in
  `function_input`), reading JSON, XML, query strings and request bodies
  into JSON values (`reading`), what an HTTP source makes of a request
  (`http_source`), what an HTTP call sends and records (`http_function`), the message (`message`, `processing`), errors, retries,
  rollouts, routing of messages to workflows (`routing`), and JSONLogic
  compilation and evaluation through `datalogic-rs` (`logic`, `compiler`,
  `template`, `path_template`), which reads the library's values built as
  `serde_json` values (`values`).
- `tests/` — tests of the library on concrete values.
- `app/` — what sits around the library: serde shapes of its types,
  conversions between serde_json values and the library's, the retry
  loop's timer, and reading a template's result as a count, which goes
  through floating point.
