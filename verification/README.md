# sanctifier

Security tooling for Stellar Soroban contracts, with its logic verified by Verus.

- `src/` is the verified library:
  - `amm`: constant-product pool arithmetic (swap output, liquidity mint and
    burn, the integer square root) and the pool's laws (the product of
    the reserves never falls, outputs stay below the reserves, adding and
    removing liquidity at once never profits, ...);
  - `token`, `token_with_bugs`: token balance logic over models of contract
    storage;
  - `syntax`: the syntax model of Rust source that the rules read, filled by
    `syn` (the only trusted part of the analysis);
  - `rules`: the rule trait, the registry, and the rules (missing
    authentication, unchecked arithmetic, unhandled `Result`, deprecated host
    functions), each specified by what it reports for every parsed file;
  - `storage_collision`: storage keys used more than once within one storage;
  - `cache`, `report`, `smt`, `cli`: the analysis cache, the decisions of an
    analysis run, SMT findings and the command set.
- `tests/` runs the library on concrete inputs.
- `app/` is the command-line program: argument parsing, file and directory
  walking, the cache file, the JSON and text reports, and the Z3 calls.
