# usvg_colr

Verified translation of COLR colour-glyph paint operations into SVG markup.

- `src/` is the verified library: path data for outlines, SVG attribute values
  (colours, blend modes, spread methods, matrices, ids), the bridge to `xmlwriter`
  and the glyph painter. Each painter operation states the exact sequence of
  `xmlwriter` calls it makes and, through the writer's contracts, the bytes those
  calls append: start tags with their names, and attributes with their names and
  values. Left open are the layout whitespace and the quote mark (they depend on the
  writer's options), the escaped form of an attribute value that holds a quote mark,
  and which element an end tag closes (the writer keeps its own stack of open
  elements).
- `app/` implements the font crates' traits (`ttf_parser::colr::Painter`,
  `skrifa::color::ColorPainter` and their outline pens), renders floating-point
  numbers as text and computes gradient transforms, then drives the painter.
- `tests/` runs the library against the real `xmlwriter`.
