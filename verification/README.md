# onenote_parser

The core of a OneNote file parser, written in Verus and proved against its
contracts.

- `src/` is the verified library: how a file's header tells its store format,
  how global identification tables map compact IDs to extended GUIDs, how a
  revision manifest fills an object space (roots, objects, the ID maps of
  dependent revisions), how the section entries of a `.onetoc2` table of
  contents become paths inside the notebook directory (and which of them are
  read, and how a section that fails is recorded as a warning), and how byte
  sources and blobs hand out their bytes. The public `law_*` proof functions state
  properties that hold across calls.
- `app/` is ordinary Rust around it: the native file system, a byte source
  that reads an open file on demand, and the steps of reading a notebook that
  look at the disk.
- `tests/` runs the library on concrete values.

Reading the nodes of a file (the revision store and FSSHTTPB packaging
readers, the table-of-contents and section readers, `.onepkg` archives) is
not part of this crate: the library takes their results as values, and the
application has no parser to call for them.
