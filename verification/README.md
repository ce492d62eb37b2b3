# byte_derive

The code generation behind `#[derive(TryRead, TryWrite)]` for the `byte`
crate, as a verified library.

- `src/` holds everything the derives decide: how `#[byte(..)]` and `#[repr(..)]`
  attributes become options (`config`, `item`), which field types can be read
  and written (`field`), and the exact text of the generated impls (`field`,
  `item`, `derive`). Every function states in its contract the text it produces
  or the diagnostic it gives, and `derive::derive_supported` tells exactly when
  a derive would panic.
- `src/wire.rs` gives the generated impls a byte-level meaning, with the
  behaviour of the `byte` crate for each field type as a parameter, and proves
  the round trip: reading back what was written gives the same values and
  consumes exactly the bytes written. `src/laws.rs` holds the other properties
  that hold on every input.
- `app/` reads the item with `syn`, hands its parts to the library as plain
  values, and turns the generated text (or the diagnostic) back into tokens.
  A proc-macro crate forwards its two derives to `app`'s functions.
