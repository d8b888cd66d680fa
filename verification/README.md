# torrentfs

A virtual filesystem for BitTorrent. `.torrent` files are dropped into `metadata/`, their content
appears under `data/`, and a read fetches the pieces that it needs. `.stats` files tell how it
goes.

The logic of the filesystem is a library that is verified with [Verus](https://verus-lang.github.io):
every function states what it returns and is proved to do so, without panics or overflow. A program
around it talks to the kernel, to SQLite and to libtorrent.

## Layout

- `src/` — the verified library
  - `domain/` — errors, the catalogue's data types, keys of pieces, priorities of pieces
  - `fuse/` — the tree of inodes, the operations of the filesystem, the `data/` view of the
    catalogue, the `.stats` texts, the queue of waiting reads
  - `download/` — which pieces a read needs, the whole course of a read, the torrents in the session
  - `infrastructure/` — the index of the piece cache, the check of cached pieces, the
    configuration, the catalogue's trees and migrations, the session's alerts
  - `text.rs`, `table.rs` — texts as sequences of characters, tables keyed by text
- `tests/` — tests of the library
- `app/` — the program: mount, database, session, files and threads

## How the two parts meet

The library does no input or output. An operation that needs some is a state machine or a pair of
functions: the library says what is to be done next, the program does it and hands the outcome
back. So `download::read::FileRead` runs a read from its first question to its answer, and is
proved to give the torrent's own bytes whatever happens on the way.

What the library takes from other crates (`hex`, `sha1_smol`, `serde_json`) and a few functions of
the standard library stand behind small functions whose contracts are believed; each says so above
its definition.
