# Layerhouse

The rules of a container registry, written in Verus: what each change does to the
replicated metadata, who may do what, how requests are read and how they are
answered. Every function of the library states what it returns or changes, and
Verus proves it.

## Layout

- `src/` is the library.
  - `raft/`: the replicated state machine (`model`, `manifests`, `configs`,
    `namespaces`, `state_machine`), what is read from it (`reads`), how it is
    restored (`restore`, `snapshot`), how answers of the log are decoded
    (`router`), and the membership of the cluster (`membership`, `joining`, and
    `join_loop`, the steps of a node that joins).
    `laws` and `state_laws` hold what the changes promise together.
  - `store/metadata/`: the types that are stored, and the grammar of handles,
    repository paths and identifiers.
  - `auth/`: permissions, credentials, the login and the token endpoint.
  - `oci/`: digests, JSON documents and manifests.
  - `routes/`: how requests are read and answered.
  - `listing`, `string_map`, `text`: lists, ordered maps and texts.
- `app/` is the server around the library: HTTP, consensus and storage.
- `tests/` runs the library on concrete values.

## What is trusted

Calls into other crates and into parts of the standard library stand behind small
functions marked `external_body`. The comment above each one names the function
that it calls and says what is claimed of it. Results that are functions of their
arguments but take pages to state (hashes, encodings, parsed documents) are named
by spec functions without a body; contracts speak of those names.

## Bounds

Reference counts are machine integers. A push is applied only while every count can
still grow by one; `StateMachineData::ref_counts_have_room` tells.
