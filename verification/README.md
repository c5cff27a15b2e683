# qp_hd

A QuantPerm/QTM substrate runtime. `src/` is the verified library: seed
resolution (BIP39 word indices, raw and custom entropy) into deterministic
manifolds, QTM coordinate/commitment pairs, the QP44 projection, the economic
gates, the transaction uniformity gate, and every decision of the substrate
commands (parsing and rendering persisted surfaces, event names, genesis and
replay steps). `app/` is the `qp` command line: the filesystem and the graph
transitions of `qtm_graph`, which the library drives through plain values.

Modules of `src/`:

- `manifold`: plain-value manifold state and transition receipts; PERM genesis.
- `protocolvalue`: coordinate and commitment of a manifold, witness checks.
- `pathsregistry`: coin types, purposes, registry paths.
- `purpose`: BIP39 handling, seed sources, the manifold builder.
- `qp44`: total mass, flows, wallet objects and receipts, wallet derivation.
- `economic_gate`: balance and cost gates, structures, economies, transactions.
- `commands`: surfaces, event names, genesis and replay of substrates.
- `encoding`, `digest`, `text`, `strings`: bytes, hashes, decimals and text.
