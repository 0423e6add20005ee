# analysis

A verified library for two pieces of a static analyzer for Rust:

* `numerical` — the interval abstract domain. `integer` holds
  arbitrary-precision integers as a sign and base 2^64 digits, and does their
  arithmetic with `rug` (GMP); `interval` defines bounds on the extended
  integer line (`-∞`, integers, `∞`) and intervals of them, with comparison,
  arithmetic, bitwise and shift transfer functions; `laws` proves that the
  order of bounds is total and that every transfer function is sound (the
  interval it computes holds every result of the operation on members of its
  operands, for division when the divisor interval lies on one side of zero).
* `memory::utils` — summary keys for definitions, manglings of types, and
  the test of whether a type is fully concrete, over definitions and types
  given as plain values. A key is the crate's name and the path's
  components separated by `.`: every name is preceded by its length, every
  component kind other than the type namespace by a word that starts with
  its own letter, and a non-zero disambiguator follows `_` (with, for an
  impl of `core`'s `num`, the mangled type of the parent).
* `memory::mangling` — the mangling as a specification: a kind word whose
  first character tells the kind apart, every part of variable length
  preceded by its length or count, and every name or other text written as
  its code points. It proves that every mangling is an identifier text, and
  that two types with the same mangling are the same type.
* `memory::summary_keys` — proves that two definitions with the same key
  are the same definition, except where a name ending with
  `foreign_contracts` strips the prefix before it (which lets a crate of
  contracts stand for the crates it describes), and that the key depends
  only on the definition's path and, where it reads it, its parent.

`text` holds decimal renderings shared by both.

`app/` holds the compiler-facing glue that reads definitions and types out of
`rustc`'s context into the plain values of `memory::utils`; it needs a
`rustc_private` toolchain.
