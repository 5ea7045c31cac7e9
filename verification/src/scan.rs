//! Reading a descriptor line by line, as its lines become available.

use crate::atlas::AtlasDimensions;
use crate::glyph::CharacterInfo;
use crate::parser::{extract_character, glyphs_of_lines};
use vstd::prelude::*;

verus! {

/// Why reading a descriptor failed. Either failure ends the parse, and no record of the
/// lines read before it is handed out.
#[derive(Debug, PartialEq, Eq)]
pub enum ParseError {
    /// The file at `path` could not be opened, for the reason `cause`.
    FileOpen { path: String, cause: String },
    /// The line at `line_index`, counted from zero, could not be read, for the reason
    /// `cause`.
    LineRead { line_index: usize, cause: String },
}

/// A parse in progress: the lines read so far, and the records that they give.
///
/// A parse starts with no line read, takes the lines in the order of the file, and ends
/// either when the lines are exhausted, with all the records, or when a line cannot be
/// read, with the error alone.
pub struct ParseState {
    atlas_dimensions: AtlasDimensions,
    characters: Vec<CharacterInfo>,
    line_index: usize,
    seen: Ghost<Seq<Seq<char>>>,
}

impl ParseState {
    #[verifier::type_invariant]
    spec fn consistent(self) -> bool {
        &&& self.line_index == self.seen@.len()
        &&& self.characters@ == glyphs_of_lines(self.seen@, self.atlas_dimensions)
    }

    /// The lines read so far, first to last.
    pub closed spec fn lines(self) -> Seq<Seq<char>> {
        self.seen@
    }

    /// The atlas against which the lines are read.
    pub closed spec fn atlas(self) -> AtlasDimensions {
        self.atlas_dimensions
    }

    /// Starts a parse against `atlas_dimensions`, with no line read.
    pub fn start(atlas_dimensions: AtlasDimensions) -> (state: ParseState)
        ensures
            state.atlas() == atlas_dimensions,
            state.lines() == Seq::<Seq<char>>::empty(),
    {
        ParseState {
            atlas_dimensions,
            characters: Vec::new(),
            line_index: 0,
            seen: Ghost(Seq::empty()),
        }
    }

    /// The number of lines read so far, which is the index of the line to come.
    pub fn lines_read(&self) -> (count: usize)
        ensures
            count == self.lines().len(),
    {
        proof {
            use_type_invariant(self);
        }
        self.line_index
    }

    /// Takes the next line of the file: a glyph line adds its record, any other line adds
    /// nothing.
    pub fn read_line(self, line: &str) -> (next: ParseState)
        requires
            self.lines().len() < usize::MAX,
        ensures
            next.atlas() == self.atlas(),
            next.lines() == self.lines().push(line@),
    {
        proof {
            use_type_invariant(&self);
        }
        let ghost seen = self.seen@.push(line@);
        let mut characters = self.characters;
        match extract_character(line, self.atlas_dimensions) {
            Some(char_info) => characters.push(char_info),
            None => {},
        }
        proof {
            assert(seen.drop_last() =~= self.seen@);
            assert(seen.last() == line@);
            assert(characters@ =~= glyphs_of_lines(seen, self.atlas_dimensions));
        }
        ParseState {
            atlas_dimensions: self.atlas_dimensions,
            characters,
            line_index: self.line_index + 1,
            seen: Ghost(seen),
        }
    }

    /// Ends the parse at the end of the file, with the records of all the lines read, in the
    /// order of the lines.
    pub fn finish(self) -> (characters: Vec<CharacterInfo>)
        ensures
            characters@ == glyphs_of_lines(self.lines(), self.atlas()),
    {
        proof {
            use_type_invariant(&self);
        }
        self.characters
    }

    /// Ends the parse at a line that could not be read. The error names that line by its
    /// index; the records of the lines before it are given up.
    pub fn line_failed(self, cause: String) -> (error: ParseError)
        ensures
            error == (ParseError::LineRead { line_index: self.lines().len() as usize, cause }),
    {
        proof {
            use_type_invariant(&self);
        }
        ParseError::LineRead { line_index: self.line_index, cause }
    }
}

} // verus!
