# binspect

A viewer for binary file formats. Parsers built from small combinators read a file and
produce, besides the parsed value, an annotation tree: for every parser that ran, the span of
bytes it read and what it made of them, or why it failed. A terminal interface draws those
annotations above the bytes of several files at once, each parser in a colour of its own.

## Layout

- `src/` is the library, verified with Verus.
  - `annotation` — the annotation tree, its model `AnnoView`, and how a parent adopts the
    annotations of its children.
  - `parser` — the `Parser` trait, whose contract every parser meets: the input only
    advances, the annotation lies within the input, succeeds exactly when the parse does, and
    carries only identifiers of the parser's description; a pure parser's outcome is given by
    its `spec_parse`.
    - `num` — fixed-size little-endian integers.
    - `combinator` — checkpoints, length-prefixed repetition, maps, optional, conditional and
      delayed parsers, and tuples of up to ten parsers.
    - `spec` — descriptions of parser hierarchies, their identifiers and their text lines.
    - `helpers`, `generic`, `specific` — folding a child into its parent, constructors, and
      the TDT file parsers.
  - `data_loader`, `dummy_data` — the description and parsers of the TDT format, and
    hand-made annotations.
  - `data_section` — the layout of an annotation tree on screen and the line of bytes.
  - `colours`, `render`, `text` — colour codes, the text of parsed values, string helpers.
- `app/` is the terminal program: loading files, drawing with ratatui, logging.
- `tests/` holds the tests of the library.
