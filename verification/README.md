# lbby_core

The rules of Lbby, a manager for Minecraft and Terraria servers, as verified
executable Rust: which mods a pack lacks, why a boot or a run failed, how a new
build takes an old one's place, what goes into a backup and comes out of it, how
profiles are kept, and what is reported.

* `src/` is the library. Every function states what it returns or changes in
  `requires` and `ensures`; functions named `law_..` state what holds of several
  of them together. Text is modelled as `Seq<char>` throughout (`text.rs`).
* `tests/` runs the library.
* `app/` is the application around it: files, processes, the network, and the
  records that are stored and sent. Where outside work and decisions alternate,
  the library says what to do next and takes what came of it
  (`BootRepairSession`, `RuntimeProbe`, `BootWatch`, `Commit`,
  `TransactionalRestore`, `AtomicWrite`, `FileDownload`).

What the library has from other crates stands behind small functions whose
contracts are believed and not proved; each says in its doc comment what it
calls and what it claims. They read JSON, TOML and ZIP archives, order versions,
compute checksums and Base64, and ask for the time, random identifiers and the
user's directories.
