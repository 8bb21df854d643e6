# shader-slang (verified core)

The decoding of Slang's bitfield-shaped reflection values and the text rules of
the bindings generator, written in Verus with their contracts proved.

- `src/sys.rs` — the raw `SlangResourceShape` / `SlangBindingType` newtypes and
  the header's enumerator values.
- `src/resource_shape.rs` — `BaseShape`, `ResourceShape`, `BaseBindingType`,
  `BindingType`: the decode into a base value plus flags, the debug text, and
  the laws of the decode (`law_*`).
- `src/codegen.rs` — PascalCase naming, variant-prefix trimming, the serde
  attribute rule, the host-to-platform map and the `#[repr]` normalization of
  the generated bindings, with their laws.
- `src/text.rs` — digits, character sequences and string building.
- `app/` — the `regen-bindings` program (`app/main.rs`, `app/xtask.rs`) that
  drives bindgen and the file system, and serde-carrying copies of the value
  types with their `Debug`.
