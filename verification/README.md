# vvcenc

The core of a VVC (H.266) video encoder, written in Verus: every function in
`src/` carries a contract that Verus proves.

What the library covers:

- bit and bin accumulation (`bits`, `bins`, `binary_writer`);
- the CABAC engine, its context tables and the binarizations of the syntax
  elements (`bool_coder`, `cabac_contexts`, `ctx_inc`, `element_coding`,
  `level_coding`, `syntax_coding`, `tree_coding`, `neighbour_ctx`);
- parameter set payloads (`aps`, `aps_encoder`, `gci`, `gci_encoder`, `dpb`,
  `dpbp_encoder`);
- the coding tree, its units and their neighbourhood (`ctu`, `tiles`,
  `availability`, `unit_queries`, `split_rules`, `tree_split`), and the
  coefficient scan (`coeff_scan`);
- intra prediction (`ref_samples`, `intra_predictor`, `angular`, `pdpc`,
  `prediction`);
- the coding of tree-unit, coding-unit and transform-unit syntax
  (`ctu_encoder`, `cu_syntax`, `tu_syntax`, `coeff_scan`).

Contracts are stated over spec functions: the bins a syntax element turns into,
the sequence of elements a unit codes, the samples a prediction mode writes.
Public proof functions whose names begin with `law_` state properties that
relate several operations.

`tests/` runs the library on concrete values. `app/` is the command-line driver:
argument parsing, reading pictures and writing output, which stay outside the
verified code.
