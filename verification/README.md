# super_massive_io

A file-system benchmark toolkit whose logic is verified with Verus.

Data is written as self-validating pages: a page carries its metadata (base
seed, file, page and mutation count) and a payload that a seeded
Xoroshiro128++ generator derives from that metadata, so any page read back can
be checked on its own. Pages are grouped into chapters (the unit of reads and
writes), laid out over directories and files (a *constellation* or a
*bookcase*), and handed to workers by bounded work queues.

## Layout

- `src/` — the verified library.
  - `page.rs`, `chapter.rs`, `words.rs`, `rng.rs`: pages, their byte images
    and payload generation.
  - `constellation.rs`, `bookcase.rs`, `naming.rs`, `text.rs`: layouts of
    directories and files, their path names and descriptions.
  - `queue/`: the closure-driven work iterator and units of work.
  - `inspector.rs`: per-worker counters of work done.
  - `aio.rs`, `quill.rs`: Linux AIO requests, events and errors as plain
    values; the I/O engines.
  - `scribe/`: the scribe tool's pages, chapters, bookcases and grid
    scheduler.
- `app/` — the benchmark program: command line, file-system operations,
  threads and the libaio system calls, driven by the library.
- `tests/` — tests of the library.
