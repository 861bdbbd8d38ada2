# oxc_dom_expressions

A JSX compiler core for Solid-style reactive runtimes, verified with Verus.
Lowercase JSX elements become HTML templates with dynamic slots, filled in
by runtime calls (`insert`, `setAttribute`, event handlers, ...);
capitalised elements become `createComponent` calls and fragments become
arrays. Identical templates share one template variable.

## Layout

- `src/` — the verified library.
  - `jsx.rs`: the model of a JSX tree that the compiler reads; `js.rs`: the
    JavaScript tree it emits, with a view of each type.
  - `template.rs`: JSX element to HTML template and dynamic slots
    (`template_of` states the result), `html_subset_parser.rs` and
    `template_minimalizer.rs`: template parsing and minimalization.
  - `transform.rs`: the transformer (`DomExpressions`): template variables,
    element references, runtime calls, components, fragments, imports,
    event delegation, and the laws over them.
  - `compat2.rs`: the transformer in the format of the Babel plugin.
  - `optimizer.rs`: template deduplication statistics.
  - `options.rs`, `utils.rs`, `codegen.rs`, `compat/`, `text.rs`: options,
    element and attribute classification, string code generation, naming
    conventions and text helpers.
- `tests/` — tests of the library, with JSX models built by hand.
- `app/` — the glue to oxc: conversion of oxc's JSX nodes into the model,
  conversion of the emitted tree into oxc nodes, `Traverse` impls, the serde
  form of the options, floating-point statistics and the static expression
  evaluator.
