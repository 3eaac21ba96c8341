# smart_archive_rar

RAR5 archive jobs for the Smart Archive VS Code extension: creating an archive
and appending to one, extracting, listing and deleting members, repairing an
archive and rebuilding missing volumes.

The library in `src/` decides and performs no I/O. A public function such as
`create_archive` makes a job. A job is driven by `compute`: it takes a `Reply`
and either asks for something with a `Request` or is done. The first reply is
`Reply::Begin`.

- `dict`, `size`, `text`, `path`: dictionary sizes, byte counts in words, texts,
  parts of paths.
- `entry`, `budget`, `batch`, `options`: planning the entries, holding them to
  the size limits, handing them over, settling the caller's options.
- `progress`, `volumes`: progress through a whole job, the list of its files.
- `protocol`, `writing`, `create`, `append`, `extract`, `members`, `recovery`:
  the conversation, and each job's part in it.
- `create_laws`, `append_laws`: what holds of every conversation with a job that
  writes an archive. The laws of the other modules stand in those modules.

`app/` is the node side: it performs the requests on the file system and with
the `rar5` library, and speaks to JavaScript through `napi`.

The two functions of `path` that call `std::path` are trusted; their doc
comments say what is believed of them.
