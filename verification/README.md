# appendfile

Moves a media file into a target folder under the next free numbered name of a
prefix (`<prefix><n>.<ext>`), and remembers the target folder for later runs.

- `src/` is the verified library:
  - `naming` — which files share a numbering, how an index is read from a file
    name, and the next output name and path, with the laws of the numbering;
  - `cli` — the command line, read step by step (`parse_cli`);
  - `storage` — where the target folder is remembered, reading it back, and the
    run that moves the input (`run_with_target`);
  - `fileops` — moving a file, by rename or by copy and removal;
  - `number`, `text`, `paths` — decimal numbers, character operations, and the
    path operations left to `std::path`.
- `app/` is the program: it answers the library's questions and carries out its
  steps on the filesystem.
- `tests/` runs the library on concrete values.
