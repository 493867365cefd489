# gir_codegen

Builds the body of a Rust wrapper around a C function of a GObject library, as a
tree of chunks, and proves with Verus what that tree consists of.

- `src/library.rs`, `src/analysis/`: the data that describe a C function, its
  parameters, its return value and, for an asynchronous function, its callback.
- `src/env.rs`: types, namespaces and conversions, already resolved, and their
  lookup.
- `src/chunk/`: the chunks, and their mathematical model.
- `src/codegen/function_body_chunk.rs`: the `Builder`, whose `generate` yields
  the body.
- `src/codegen/model.rs`: the body as a function of what the builder collected.
  The contract of `generate` is stated over it.
- `src/codegen/laws.rs`: what holds of every generated body.
- `app/`: fills the environment from a generator's analysis and runs the builder.

`generate` asks that the environment hold what the body needs. `can_generate`
says whether it does, and `needed_translations` lists the conversions that an
asynchronous function looks up.
