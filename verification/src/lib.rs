//! Conversion of COLR colour-glyph paint operations into SVG markup.
//!
//! The crate is organised as follows:
//! - `text`: decimal rendering and the two `String` primitives the rest relies on;
//! - `path`: the outline path builder (`M`, `L`, `Q`, `C`, `Z` commands);
//! - `style`: colours, blend modes, spread methods and transform matrices as SVG text;
//! - `xml`: the bridge to `xmlwriter`, with a ghost record of the calls made;
//! - `painter`: the glyph painter state machine that drives all of the above.

pub mod text;
pub mod path;
pub mod style;
pub mod xml;
pub mod painter;
