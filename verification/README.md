# Build-layer policy and semantic-ownership library

A verified library of the build layer of a small language toolchain: the
algebra of Policy pairs and views, their elaboration from written policy
syntax, export admission and retention, Policy-mode overload selection,
same-Type Policy migration and transition bridges, the semantic owner graph,
struct-pattern material and its registry, the decoding of struct
type-pattern expressions, product flattening into argument shapes, candidate
preparation, type-argument classification, and return-target binding.

Every public function carries a `requires`/`ensures` contract checked by
Verus, and the library's laws are stated as public proof functions.

Layout (`src/`):

- `model.rs` — identities, provenance, diagnostics, graph symbols.
- `norm_syntax.rs` — the normalized syntax the build layer reads.
- `policy_syntax.rs`, `policy_pair.rs` — written policies, Policy pairs,
  views, projection and elaboration; algebraic laws of `policy_or`.
- `policy_export.rs` — export retention closure, Wpre, overload-set export.
- `policy_migration.rs`, `policy_transition.rs`, `policy_overload.rs` —
  migration requests, bridge resolution, overload selection.
- `semantic_owner.rs`, `semantic_world.rs` — owner graph, owner
  qualification, writable contexts, construction authority.
- `struct_pattern_material.rs`, `struct_pattern_registry.rs`,
  `struct_decoder.rs` — struct pattern syntax, registry and decoder.
- `product_shape.rs`, `v08.rs` — product flattening, argument shapes,
  candidate preparation.
- `type_argument.rs` — classification of type arguments through a
  resolution environment.
- `return_target.rs` — return frames and return-event binding.

Tests are under `tests/`.

## What is not here

The connected semantic world object itself (the `SemanticWorld` that owns
namespace topology, symbol cells, values, types, patterns, places and call
entries, with its namespace-delta installation and callable, type-carrier and
cluster registration) is not part of this library. Its state and operations
are built on components that this repository does not contain: the
semantic name index and its build errors, the owner-namespace graph, the
canonical value normal forms and their addresses, the meta-invocation keys
and type-definition instances, and the value identities. Only the world's
self-contained parts stand here (writable contexts, construction authority,
cluster member ledgers and derived cluster Policy, pattern hosts, Val2
snapshots). The type-argument classifiers that read the world's name
resolver are likewise absent; the environment-based classifier is present.
