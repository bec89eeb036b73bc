# mf — make files, verified

`mf` creates files from the command line: empty, or with content from the
clipboard, a pipe or another file; in a chosen or per-extension encoding;
with a warning when the content does not suit the extension; and with
interactive conflict handling for files that already exist.

The library under `src/` holds the logic, with contracts proved by Verus:

- `text`, `path` — text operations and the component rules of file paths.
- `content_type` — detection of the content type of text (structured
  formats through their parsers, scripts and programming languages by
  weighted signals, Markdown), and the check of a file name against it.
- `encoding` — per-extension encodings; UTF-16 (with byte-order mark)
  written here, GBK through `encoding_rs`; decoding with `encoding_rs`;
  detection by byte-order mark, UTF-8 validity and `chardetng`.
- `config` — defaults and the layering of user and project configuration.
- `conflict` — what happens to an existing file, and the search for a free
  name.
- `file_ops` — path validation, backup and temporary names, and the
  registry of temporary files.
- `cli` — the decisions of one run: conflict mode, encoding, size limit,
  the mismatch prompt, piped input, clipboard images.
- `ui` — previews, menus and the reading of answers.
- `clipboard` — the clipboard over a platform provider.
- `laws` — properties across operations.

`app/` is the program around it: argument parsing, configuration files,
the terminal, the file system and the system clipboard.
