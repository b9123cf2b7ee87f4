# backup_docker_files

Backs up files out of Docker containers into repositories of rotating
backups, and hands finished backups on to mirrors.

- `src/` is the library, verified with Verus: the data model (`models`),
  container labels and their parsing, glob and path handling, the order of
  work in file and Pocketbase extractions (step machines that the program
  drives), fresh identifiers, rotation of repositories, the keep/skip
  schedule of mirrors, and the pieces of the Pocketbase exchange that compute on plain values (`services`, `clients`,
  `text`). Contracts are stated over `Seq<char>` views and spec functions;
  the laws of the library stand there as proof functions.
- `app/` is the command-line program: argument parsing, the Docker daemon,
  HTTP, the file system, and TOML metadata. It calls the library for every
  decision.
- `tests/` exercises the library on concrete values.
