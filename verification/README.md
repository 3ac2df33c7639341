# r2_mount

A bucket of an S3-compatible object store, shown as a directory tree over
NFSv3. The rules by which it stages, publishes, moves and deletes a user's
bytes are proved in Verus. The code around them, which performs each request
and hands back its answer, is ordinary Rust and is not.

Writes are staged in local files, made durable in a log before they are
acknowledged, and uploaded later under a condition on what they may replace.
Renames copy, look at what they copied, and delete only then. Whatever is
interrupted goes on from its journal.

## Layout

- `src/` is the library. It performs no input or output: what alternates
  requests and decisions is a state machine that says what to do next and takes
  what came of it.
  - `text`, `paths`, `keys`, `key_map`: texts, paths, object keys, sorted maps.
  - `inode_table`, `directory_listing`, `directories`, `lookup`: the tree that
    clients see.
  - `stage`, `stage_state`, `durable`, `stage_commit`, `quota`: staged files,
    their log, and the room they take.
  - `journal`, `publish`, `flush`, `flush_run`, `content`: uploads.
  - `rename`, `rename_plan`, `rename_request`, `part_copy`, `fence`: renames.
  - `read`, `read_cache`: reads.
  - `inventory`, `recovery`, `namespace_recovery`: what a restart finds.
  - `operations`, `status`, `health`, `progress`, `platform`: requests, their
    answers, and what the user is shown.
- `app/` performs the requests: the NFS server's trait, the store, the disk. The
  order in which it takes some steps stands there too, and is not proved.
- `tests/` runs the library on concrete values.
