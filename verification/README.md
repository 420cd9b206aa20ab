# ash_gen

A generator of Rust bindings for Vulkan, verified with Verus. It classifies the C
declarations of the Vulkan registry into Rust-facing types and produces the Rust
source of the bindings: type aliases, constants, macros, enums, bitmasks and the
function tables of the commands, each placed in the module of the core version or
extension that provides it.

Layout:

- `src/` — the verified library.
  - `decl.rs`, `function.rs`, `xml.rs`, `require.rs`, `items.rs`, `names.rs`: the model
    of the registry and the classification of C types.
  - `to_rust.rs`, `generator.rs`, `ident.rs`: how names and types are written as Rust.
  - `item.rs`, `loader.rs`: the code of each kind of item and the function tables.
  - `output.rs`, `files.rs`, `vfs.rs`: destinations, module paths, and the layout of
    the generated code as files.
  - `check.rs`: deciding beforehand whether an analysis can be generated.
  - `vk.rs`, `c_str.rs`: result codes and fixed-size C strings of the runtime.
  - `laws.rs`: properties that span several functions.
- `tests/` — tests on concrete values.
- `app/` — what stays outside the verified library: writing files to disk, raw
  pointers, `unsafe` helpers, and `Display` for the library's error.

Generated code is kept as its source text, with its pieces separated by spaces.
