# fixed_width_biguint

Natural numbers of any size that carry a declared, stable width in 64-bit limbs, for generic code
that asks a number for its width: modular reduction, extended Euclid, Montgomery multiplication.

`FixedWidthBigUint` is a `BigUint` and a limb count. Arithmetic is that of `BigUint`; the limb count
is what `bits_precision` and `word_count` report, where wrapping addition masks, what wrapping and
borrowing subtraction add when they would go below zero, and where carrying multiplication splits a
product. The type implements the traits of `const-num-traits` and the row kernels of `modmath-cios`.

What stands under `src/` is verified with Verus, but for the derived `Hash` impls and for the call
that hands text to a formatter:

- `positional`, `bitwise`, `bytes`, `model`: what numerals, bits, bytes and fixed-width numbers mean
- `limbs`, `division`, `rows`: arithmetic on sequences of limbs
- `biguint`, `fixed_width`: the two types
- `ops`, `numeric`, `encoding`, `cios`, `text`: what a fixed-width number can do
- `laws`: how the operations relate to each other

`app/` wraps the type in one that has `Ord`.
