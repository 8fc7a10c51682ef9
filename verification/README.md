# object_derive

Expansion of the `Object` attribute of a GraphQL server. An `impl` block whose
methods are fields and entities is turned into the same block with rewritten
methods, followed by the impls through which the object is registered in the
schema, its fields are resolved and its entities are found.

- `src/` is the expansion, verified with Verus.
  - `object` expands a block (`generate`), `method` one method of it, `params` its
    parameter list, `field` and `entity` the code behind a field and an entity.
  - `syntax` holds the parts of a block, `args` and `output_type` what was read off
    them, `tokens` the code that comes out, `error` the refusals.
  - `punctuated` and `camel_case` are the borders to the crates `syn` and
    `Inflector`; what is trusted stands there.
  - `laws` states what holds of every expansion.
- `app/` converts between the syntax trees of `syn` and the library.
- `tests/` runs the library.
