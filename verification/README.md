# rusty_pdf

A library for building PDF documents: objects and their encoding, dictionaries, page trees,
content stream operators, colours, patterns, shadings, gradients, outlines, annotations,
actions, optional content, cross-reference tables and the file structure around them.

The library in `src/` is written for Verus: each function states what it does in `requires`
and `ensures` clauses, and Verus proves the code against them. Real numbers are held as
ten-thousandths in 64-bit integers (`31400` stands for 3.14), so that the arithmetic can be
proved.

- `src/objects/` holds the object types and how they are written; `serial.rs` writes indirect
  objects into a byte buffer and records their cross-reference entries.
- `src/pdf_file.rs` puts a whole document together: header, body, cross-reference table and
  trailer.
- `tests/` runs the library on concrete values.
- `app/` is a small program that builds a three-page document and writes it to
  `output.pdf`; it also holds what needs floating point or the file system, such as the
  direction of a linear gradient from its angle, the hash of a tiling pattern's content
  and reading an image for an inline image.
