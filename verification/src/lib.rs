//! Glyph records from the text form of a bitmap-font descriptor.
//!
//! A descriptor is a text file of lines. The lines that begin with `char id` each describe
//! one glyph as a run of `key=value` tokens; every other line is passed over. Each glyph
//! line yields a [`CharacterInfo`]: the integers the line gives, and the corners of the
//! glyph's rectangle on the texture atlas.

pub mod atlas;
pub mod field;
pub mod glyph;
pub mod laws;
pub mod number;
pub mod parser;
pub mod scan;
pub mod text;
pub mod token;

pub use atlas::{
    AtlasDimensions, Corner, BOTTOM_LEFT_INDEX, BOTTOM_RIGHT_INDEX, TOP_LEFT_INDEX,
    TOP_RIGHT_INDEX,
};
pub use field::Field;
pub use glyph::{calculate_char_texture_coords, fill_in_char_info, CharacterInfo};
pub use parser::{extract_character, extract_characters};
pub use scan::{ParseError, ParseState};
pub use text::char_is_whitespace;
pub use token::extract_numeric_value;
