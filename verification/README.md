# ukoreutils

Small command-line tools built directly on libc (`hello`, `ls`, `mkdir`,
`minifind`, `pwd`), with their decisions verified by Verus.

- `src/` is the verified library: the step function of the `write(2)` retry
  loop (`io`), the option loop shared by the tools (`options`), the command
  lines, outputs and usage texts of `ls`, `mkdir` and `minifind`, the state
  machine behind `mkdir -p` (`mkdir::MkdirRun`), reading NUL-terminated
  strings (`bytes`), the alignment rule of the libc allocator (`libc_alloc`),
  and exit statuses (`start`).
- `app/` performs the system calls that the library asks for: `write`,
  `errno`, `opendir`/`readdir`, `mkdir`, `dirname`, `getcwd`, `malloc`, and
  the tools' `main` functions.
- `tests/` runs the library on concrete command lines and system-call results.
