//! Glyph lines and the descriptor as a whole.

use crate::atlas::AtlasDimensions;
use crate::glyph::{calculate_char_texture_coords, fill_in_char_info, CharacterInfo};
use crate::text::{char_is_whitespace, starts_with, to_chars, token_end, tokens};
use crate::token::only_assignment_at;
use vstd::prelude::*;

verus! {

/// Whether `line` describes a glyph: whether it begins, with nothing before it, with the
/// characters `char id`.
pub open spec fn is_glyph_line(line: Seq<char>) -> bool {
    "char id"@.is_prefix_of(line)
}

/// The record that the tokens of `line` build, read from left to right into an empty
/// record, with its corners placed on `atlas` once the last token is read.
pub open spec fn glyph_record(line: Seq<char>, atlas: AtlasDimensions) -> CharacterInfo {
    CharacterInfo::empty().assigned_all(tokens(line)).with_texture_coordinates(atlas)
}

/// The record of `line` if it is a glyph line, and nothing if it is not.
pub open spec fn glyph_of_line(line: Seq<char>, atlas: AtlasDimensions) -> Option<CharacterInfo> {
    if is_glyph_line(line) {
        Some(glyph_record(line, atlas))
    } else {
        None
    }
}

/// The records of the glyph lines among `lines`, in the order of the lines.
pub open spec fn glyphs_of_lines(lines: Seq<Seq<char>>, atlas: AtlasDimensions) -> Seq<
    CharacterInfo,
> {
    lines.filter_map(|line: Seq<char>| glyph_of_line(line, atlas))
}

/// Decides whether `chars` holds a `=` from index `start` up to, not including, `end`.
fn holds_assignment(chars: &Vec<char>, start: usize, end: usize) -> (r: bool)
    requires
        start <= end <= chars.len(),
    ensures
        r == chars@.subrange(start as int, end as int).contains('='),
{
    let ghost token = chars@.subrange(start as int, end as int);
    let mut i: usize = start;
    while i < end
        invariant
            start <= i <= end <= chars.len(),
            token == chars@.subrange(start as int, end as int),
            forall|k: int| 0 <= k < i - start ==> token[k] != '=',
        decreases end - i,
    {
        if chars[i] == '=' {
            assert(token[i - start] == '=');
            return true;
        }
        i = i + 1;
    }
    false
}

/// Reads one line of a descriptor.
///
/// A glyph line gives the record that its tokens build; any other line gives nothing.
pub fn extract_character(line: &str, atlas_dimensions: AtlasDimensions) -> (r: Option<
    CharacterInfo,
>)
    ensures
        r == glyph_of_line(line@, atlas_dimensions),
{
    let chars = to_chars(line);
    if !starts_with(&chars, "char id") {
        return None;
    }
    let ghost text = line@;
    let ghost mut done: Seq<Seq<char>> = Seq::empty();
    let mut char_info = CharacterInfo::new();
    let mut i: usize = 0;
    assert(text.skip(0) =~= text);
    assert(done + tokens(text) =~= tokens(text));
    while i < chars.len()
        invariant
            i <= chars.len(),
            chars@ == text,
            text == line@,
            tokens(text) == done + tokens(text.skip(i as int)),
            char_info == CharacterInfo::empty().assigned_all(done),
        decreases chars.len() - i,
    {
        let ghost rest = text.skip(i as int);
        if char_is_whitespace(chars[i]) {
            assert(rest.drop_first() =~= text.skip(i + 1));
            i = i + 1;
        } else {
            let end: usize = token_end(&chars, i);
            let ghost token = text.subrange(i as int, end as int);
            proof {
                assert(rest.take(end - i) =~= token);
                assert(rest.skip(end - i) =~= text.skip(end as int));
                assert(done + (seq![token] + tokens(text.skip(end as int))) =~= done.push(token)
                    + tokens(text.skip(end as int)));
                assert(done.push(token).drop_last() =~= done);
                if !token.contains('=') {
                    assert forall|at: int| !only_assignment_at(token, at) by {
                        if 0 <= at < token.len() && token[at] == '=' {
                            assert(token.contains('='));
                        }
                    }
                }
            }
            if holds_assignment(&chars, i, end) {
                fill_in_char_info(&mut char_info, line.substring_char(i, end));
            }
            proof {
                done = done.push(token);
            }
            i = end;
        }
    }
    assert(tokens(text) =~= done);
    calculate_char_texture_coords(&mut char_info, atlas_dimensions);
    Some(char_info)
}

/// Extracts, from the lines of a font descriptor, what is needed to find each glyph on the
/// texture atlas and to place it on screen.
///
/// Every glyph line gives one record, and the records come in the order of their lines.
/// Lines that describe no glyph are passed over.
pub fn extract_characters(lines: &Vec<String>, atlas_dimensions: AtlasDimensions) -> (characters:
    Vec<CharacterInfo>)
    ensures
        characters@ == glyphs_of_lines(lines.deep_view(), atlas_dimensions),
{
    let ghost all = lines.deep_view();
    let mut characters: Vec<CharacterInfo> = Vec::new();
    let mut index: usize = 0;
    while index < lines.len()
        invariant
            index <= lines.len(),
            all == lines.deep_view(),
            characters@ == glyphs_of_lines(all.take(index as int), atlas_dimensions),
        decreases lines.len() - index,
    {
        proof {
            assert(all.take(index + 1).drop_last() =~= all.take(index as int));
            assert(all.take(index + 1).last() == lines[index as int]@);
        }
        match extract_character(lines[index].as_str(), atlas_dimensions) {
            Some(char_info) => characters.push(char_info),
            None => {},
        }
        index = index + 1;
    }
    assert(all.take(lines.len() as int) =~= all);
    characters
}

} // verus!
