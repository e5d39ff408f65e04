# vint

`Vint<A>` keeps a `u128` in `A` bytes: the value's bytes from its most
significant non-zero one downwards, with the low nibble of the last byte
holding the position of that byte. Values with fewer than `A` significant
bytes come back exactly; larger ones come back rounded down.

Layout:

- `src/bytes.rs`: powers of 256, the bytes of a number, big-endian values.
- `src/vint.rs`: the type, its encoding and decoding (`From` both ways),
  `Default`, decimal text and `floor`.
- `src/ops.rs`: the arithmetic and bitwise operators with unsigned integers,
  `bool`, `char` and other `Vint`s as right operands (`src/operand.rs`).
- `src/laws.rs`: what decoding an encoding gives back, and its properties.
- `src/decimal.rs`: decimal notation of a `u128`.
- `app/lib.rs`: serde and `Display` on a copy of the type.
