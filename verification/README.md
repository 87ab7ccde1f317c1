# ts2zig

The middle of a TypeScript ahead-of-time compiler, written in Verus: Verus
checks every function of the library against its contract; the calls into
std and `proc-macro2` go through a few trusted wrappers whose contracts state
what those crates document.

- `ids`, `text`, `span`, `tables`, `ty`, `diagnostics`: identifiers, decimal
  text, source spans and names, interning tables for strings, symbols and
  types, and diagnostics.
- `hir`: the high-level IR (expressions, statements, declarations) and how a
  statement completes (falls through, returns, throws, breaks).
- `passes`: the pass context and errors; enum lowering, async lowering,
  result lowering, and the conversion from the high-level to the mid-level IR.
- `aot`: the ahead-of-time flavour of the high-level IR, closure lifting,
  the inference of what a body throws, and the source map (line lookup).
- `mir`: the mid-level IR, its runtime requirements, and its text dump.
- `backend`: the entry of code generation over `proc-macro2` token streams.

`app/` holds what Verus does not see: conversions from the spans of the
`oxc_span` crate, `Display` and `Error` for the library's messages, and the
dump of a module with its float literals written by Rust's float formatting.
The tests are under `tests/`.
