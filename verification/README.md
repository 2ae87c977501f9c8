# aarch64-air-lifter

Lifts AArch64 machine code into a small typed intermediate representation organised in
basic blocks, with contracts proved by Verus.

Layout of `src/arm64/`:

- `decode.rs`: instruction words decoded by `yaxpeax-arm`; the decoder's `Debug` rendering is
  read back into the library's `Instruction` values (`rendering.rs` and `unique.rs` hold the
  facts that make this reading exact).
- `label_resolver.rs`: the block starts of a piece of code (branch destinations and the
  addresses after branches), kept in a heap of unique addresses, and the blocks created for
  them.
- `lifter.rs` and `lifter/`: the lifting of each instruction, with a specification of exactly
  what it appends to the region, and disassembly to text.
- `ir.rs`, `printer.rs`: the intermediate representation and its textual form.
- `semantics.rs`, `laws.rs`: what the lifted code computes (condition codes, flag settings,
  additions and subtractions) and the properties that relate the label resolver, the decoder
  and the lifter.

`app/` holds the error types with `std::error::Error` and disassembly written to an
`std::io::Write`.
