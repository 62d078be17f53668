# peekpe

A terminal browser for Windows PE files (`.exe`, `.dll`): it lists a
directory, opens a PE file and shows its headers, flags, sections, exports
and imports.

- `src/` is the verified library:
  - `pe/reader.rs`: little-endian numbers, NUL-terminated strings, RVA to
    file offset translation;
  - `pe/parser.rs`: the walk through DOS header, PE signature, COFF and
    optional headers, data directories, section table, export and import
    tables, each stated as a function on the file's bytes;
  - `pe/flags.rs`: names of machines, magics and flag bits;
  - `app.rs`: the browser's state and its reaction to keys;
  - `listing.rs`: the order of a directory listing;
  - `detail.rs`: the lines of the card of an opened file;
  - `text.rs`: decimal and hexadecimal text.
- `app/` is the program around it: reading directories and files, the
  terminal, drawing with ratatui.
- `tests/` runs the library on concrete values.
