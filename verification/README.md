# mdb_api

A toolkit for writing modules (dmods) for the illumos modular debugger, MDB,
whose logic is verified with Verus.

- `src/` is the verified library: dcmd return codes (`dcmd::Code`), dcmd
  flags (`dcmd::Flags`), typed dcmd arguments and their conversions
  (`dcmd::Arg`, decimal numerals in `text`), walker steps (`walk`), the
  registration tables of a module (`modinfo`), the results of the memory
  access calls (`api`), the allocator's alignment test (`allocator`), the
  decisions of the `Walker` and `Dcmd` derives (`derives`), and a demo dmod
  with an argument-parsing dcmd and a walker (`demo`).
- `app/` holds what stays outside verification: the C layout of MDB's
  structures, the calls into MDB, the global allocator, printing, the
  module entry point, and the derive macros' token handling.
- `tests/` runs the library on concrete inputs.
