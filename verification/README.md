# simplex

A Verus library for building and using SimplicityHL contracts on Liquid.

- `src/` is the verified library: the model of SimplicityHL types and values,
  witness injection by path, the Rust bindings that are generated for a
  contract (type mappings, value conversions and extractions, enum
  declarations, argument and witness structs), the layout of the bindings
  tree, the shape of a program's taproot tree and its storage, the choice of
  coins and fees when a transaction is finalized, and the default values that
  identify a contract template. It calls SimplicityHL to parse, analyse and
  compile contract sources (their ABI, enum declarations and commitment
  root), bip39 and BIP-32 for a wallet's master key, and elements to read and
  unblind the amounts of the wallet's coins.
- `tests/` runs the library on concrete values.
- `app/` is the unverified shell around it: file I/O of the bindings
  generator, the procedural macro front end, conversions between the
  library's types and SimplicityHL's, and error types with `Display`.
