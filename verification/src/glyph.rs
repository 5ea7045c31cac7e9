//! Glyph records and the tokens that fill them.

use crate::atlas::AtlasDimensions;
use crate::field::Field;
use crate::token::{extract_numeric_value, key_value};
use vstd::prelude::*;

verus! {

/// What a descriptor says of one glyph: where its bitmap lies on the atlas and how to place
/// it on screen.
///
/// A field is `None` when its line did not give it, or gave something that is no integer.
/// `texture_coordinates` lists the corners of the glyph's rectangle in the order top-left,
/// top-right, bottom-left, bottom-right, each in atlas pixels counted from the bottom-left
/// corner of the atlas; it is all zeros until the rectangle is known.
#[derive(Copy, Clone, Debug, PartialEq, Eq)]
pub struct CharacterInfo {
    pub id: Option<i32>,
    pub x: Option<i32>,
    pub y: Option<i32>,
    pub width: Option<i32>,
    pub height: Option<i32>,
    pub x_offset: Option<i32>,
    pub y_offset: Option<i32>,
    pub x_advance: Option<i32>,
    pub page: Option<i32>,
    pub chnl: Option<i32>,
    pub texture_coordinates: [(i64, i64); 4],
}

impl CharacterInfo {
    /// The record with no field given and all four corners at zero.
    pub open spec fn empty() -> CharacterInfo {
        CharacterInfo {
            id: None,
            x: None,
            y: None,
            width: None,
            height: None,
            x_offset: None,
            y_offset: None,
            x_advance: None,
            page: None,
            chnl: None,
            texture_coordinates: [(0i64, 0i64), (0i64, 0i64), (0i64, 0i64), (0i64, 0i64)],
        }
    }

    /// The value of `field` in this record.
    pub open spec fn field(self, field: Field) -> Option<i32> {
        match field {
            Field::Id => self.id,
            Field::X => self.x,
            Field::Y => self.y,
            Field::Width => self.width,
            Field::Height => self.height,
            Field::XOffset => self.x_offset,
            Field::YOffset => self.y_offset,
            Field::XAdvance => self.x_advance,
            Field::Page => self.page,
            Field::Chnl => self.chnl,
        }
    }

    /// This record with `field` set to `value` and nothing else changed.
    pub open spec fn with_field(self, field: Field, value: i32) -> CharacterInfo {
        match field {
            Field::Id => CharacterInfo { id: Some(value), ..self },
            Field::X => CharacterInfo { x: Some(value), ..self },
            Field::Y => CharacterInfo { y: Some(value), ..self },
            Field::Width => CharacterInfo { width: Some(value), ..self },
            Field::Height => CharacterInfo { height: Some(value), ..self },
            Field::XOffset => CharacterInfo { x_offset: Some(value), ..self },
            Field::YOffset => CharacterInfo { y_offset: Some(value), ..self },
            Field::XAdvance => CharacterInfo { x_advance: Some(value), ..self },
            Field::Page => CharacterInfo { page: Some(value), ..self },
            Field::Chnl => CharacterInfo { chnl: Some(value), ..self },
        }
    }

    /// This record after reading `token`.
    ///
    /// A token that decodes to a recognised key and an integer sets that key's field,
    /// whatever the field held. Every other token leaves the record as it is.
    pub open spec fn assigned(self, token: Seq<char>) -> CharacterInfo {
        match key_value(token) {
            Some((key, value)) => match Field::of_key(key) {
                Some(field) => self.with_field(field, value),
                None => self,
            },
            None => self,
        }
    }

    /// This record after reading `tokens` from first to last.
    pub open spec fn assigned_all(self, tokens: Seq<Seq<char>>) -> CharacterInfo {
        tokens.fold_left(self, |record: CharacterInfo, token: Seq<char>| record.assigned(token))
    }

    /// The glyph's pixel rectangle as `(x, y, width, height)`, known only when all four of
    /// these fields are.
    pub open spec fn pixel_rectangle(self) -> Option<(i32, i32, i32, i32)> {
        match (self.x, self.y, self.width, self.height) {
            (Some(x), Some(y), Some(width), Some(height)) => Some((x, y, width, height)),
            _ => None,
        }
    }

    /// This record with its corners placed on `atlas`, if its pixel rectangle is known;
    /// unchanged if any of `x`, `y`, `width` and `height` is missing.
    pub open spec fn with_texture_coordinates(self, atlas: AtlasDimensions) -> CharacterInfo {
        match self.pixel_rectangle() {
            Some((x, y, width, height)) => CharacterInfo {
                texture_coordinates: atlas.texel_quad(x, y, width, height),
                ..self
            },
            None => self,
        }
    }

    /// Creates a record with no usable information.
    pub fn new() -> (info: CharacterInfo)
        ensures
            info == CharacterInfo::empty(),
    {
        CharacterInfo {
            id: None,
            x: None,
            y: None,
            width: None,
            height: None,
            x_offset: None,
            y_offset: None,
            x_advance: None,
            page: None,
            chnl: None,
            texture_coordinates: [(0, 0), (0, 0), (0, 0), (0, 0)],
        }
    }

    /// The glyph's pixel rectangle as `(x, y, width, height)`, if all four are known.
    pub fn rectangle(&self) -> (r: Option<(i32, i32, i32, i32)>)
        ensures
            r == self.pixel_rectangle(),
    {
        match (self.x, self.y, self.width, self.height) {
            (Some(x), Some(y), Some(width), Some(height)) => Some((x, y, width, height)),
            _ => None,
        }
    }

    /// Reads the value of `field`.
    pub fn get(&self, field: Field) -> (value: Option<i32>)
        ensures
            value == self.field(field),
    {
        match field {
            Field::Id => self.id,
            Field::X => self.x,
            Field::Y => self.y,
            Field::Width => self.width,
            Field::Height => self.height,
            Field::XOffset => self.x_offset,
            Field::YOffset => self.y_offset,
            Field::XAdvance => self.x_advance,
            Field::Page => self.page,
            Field::Chnl => self.chnl,
        }
    }

    /// Sets `field` to `value`, overwriting what it held.
    pub fn set(&mut self, field: Field, value: i32)
        ensures
            *final(self) == old(self).with_field(field, value),
    {
        match field {
            Field::Id => self.id = Some(value),
            Field::X => self.x = Some(value),
            Field::Y => self.y = Some(value),
            Field::Width => self.width = Some(value),
            Field::Height => self.height = Some(value),
            Field::XOffset => self.x_offset = Some(value),
            Field::YOffset => self.y_offset = Some(value),
            Field::XAdvance => self.x_advance = Some(value),
            Field::Page => self.page = Some(value),
            Field::Chnl => self.chnl = Some(value),
        }
    }
}

/// The integer that `token` gives to `field`: the value to which it decodes, if it decodes
/// and its key is the key of `field`.
pub open spec fn given(token: Seq<char>, field: Field) -> Option<i32> {
    match key_value(token) {
        Some((key, value)) => if key == field.key() {
            Some(value)
        } else {
            None
        },
        None => None,
    }
}

/// Whether `token` gives no recognised field a value.
pub open spec fn inert(token: Seq<char>) -> bool {
    forall|field: Field| given(token, field) is None
}

/// The integer that the last of `tokens` to give `field` a value gives it; nothing if none
/// of them gives it one.
pub open spec fn last_given(tokens: Seq<Seq<char>>, field: Field) -> Option<i32>
    decreases tokens.len(),
{
    if tokens.len() == 0 {
        None
    } else {
        match given(tokens.last(), field) {
            Some(value) => Some(value),
            None => last_given(tokens.drop_last(), field),
        }
    }
}

/// `last_given` is the value of the one token that gives `field` a value and is followed by
/// no other that does.
pub proof fn lemma_last_given_at(tokens: Seq<Seq<char>>, field: Field, at: int, value: i32)
    requires
        0 <= at < tokens.len(),
        given(tokens[at], field) == Some(value),
        forall|j: int| at < j < tokens.len() ==> given(#[trigger] tokens[j], field) is None,
    ensures
        last_given(tokens, field) == Some(value),
    decreases tokens.len(),
{
    if at < tokens.len() - 1 {
        let front = tokens.drop_last();
        assert(given(tokens[tokens.len() - 1], field) is None);
        assert(front[at] == tokens[at]);
        assert forall|j: int| at < j < front.len() implies given(#[trigger] front[j], field) is None by {
            assert(front[j] == tokens[j]);
        }
        lemma_last_given_at(front, field, at, value);
    }
}

/// `last_given` is nothing exactly when no token gives `field` a value.
pub proof fn lemma_last_given_none(tokens: Seq<Seq<char>>, field: Field)
    ensures
        last_given(tokens, field) is None <==> forall|j: int|
            0 <= j < tokens.len() ==> given(#[trigger] tokens[j], field) is None,
    decreases tokens.len(),
{
    if tokens.len() > 0 {
        let front = tokens.drop_last();
        lemma_last_given_none(front, field);
        if last_given(tokens, field) is None {
            assert forall|j: int| 0 <= j < tokens.len() implies given(
                #[trigger] tokens[j],
                field,
            ) is None by {
                if j < front.len() {
                    assert(front[j] == tokens[j]);
                }
            }
        }
        if forall|j: int| 0 <= j < tokens.len() ==> given(#[trigger] tokens[j], field) is None {
            assert(given(tokens[tokens.len() - 1], field) is None);
            assert forall|j: int| 0 <= j < front.len() implies given(
                #[trigger] front[j],
                field,
            ) is None by {
                assert(front[j] == tokens[j]);
            }
        }
    }
}

impl CharacterInfo {
    /// Reading a token sets the field to which the token gives a value, and touches neither
    /// the other fields nor the corners.
    pub proof fn lemma_assigned(self, token: Seq<char>, field: Field)
        ensures
            self.assigned(token).field(field) == match given(token, field) {
                Some(value) => Some(value),
                None => self.field(field),
            },
            self.assigned(token).texture_coordinates == self.texture_coordinates,
    {
        match key_value(token) {
            Some((key, value)) => {
                match Field::of_key(key) {
                    Some(named) => {
                        assert(named.key() == key);
                        if key == field.key() {
                            Field::lemma_keys_differ(named, field);
                        }
                    },
                    None => {
                        assert(field.key() != key);
                    },
                }
            },
            None => {},
        }
    }

    /// A token that gives no recognised field a value leaves a record as it is.
    pub proof fn lemma_assigned_inert(self, token: Seq<char>)
        requires
            inert(token),
        ensures
            self.assigned(token) == self,
    {
        match key_value(token) {
            Some((key, value)) => {
                match Field::of_key(key) {
                    Some(named) => {
                        assert(given(token, named) is None);
                    },
                    None => {},
                }
            },
            None => {},
        }
    }

    /// Reading tokens and then one more is reading the longer sequence.
    pub proof fn lemma_assigned_all_push(self, tokens: Seq<Seq<char>>, token: Seq<char>)
        ensures
            self.assigned_all(tokens.push(token)) == self.assigned_all(tokens).assigned(token),
    {
        assert(tokens.push(token).drop_last() =~= tokens);
    }

    /// Reading two sequences of tokens in turn is reading the one followed by the other.
    pub proof fn lemma_assigned_all_concat(self, first: Seq<Seq<char>>, second: Seq<Seq<char>>)
        ensures
            self.assigned_all(first + second) == self.assigned_all(first).assigned_all(second),
        decreases second.len(),
    {
        if second.len() == 0 {
            assert(first + second =~= first);
        } else {
            let front = second.drop_last();
            assert(first + second =~= (first + front).push(second.last()));
            self.lemma_assigned_all_push(first + front, second.last());
            self.lemma_assigned_all_concat(first, front);
            assert(second =~= front.push(second.last()));
            self.assigned_all(first).lemma_assigned_all_push(front, second.last());
        }
    }

    /// After reading tokens, a field holds what the last token to give it a value gave it, or
    /// what it held before if none gave it one. The corners are as they were.
    pub proof fn lemma_assigned_all_field(self, tokens: Seq<Seq<char>>, field: Field)
        ensures
            self.assigned_all(tokens).texture_coordinates == self.texture_coordinates,
            self.assigned_all(tokens).field(field) == match last_given(tokens, field) {
                Some(value) => Some(value),
                None => self.field(field),
            },
        decreases tokens.len(),
    {
        if tokens.len() > 0 {
            let front = tokens.drop_last();
            assert(tokens =~= front.push(tokens.last()));
            self.lemma_assigned_all_push(front, tokens.last());
            self.lemma_assigned_all_field(front, field);
            self.assigned_all(front).lemma_assigned(tokens.last(), field);
        }
    }

    /// Placing the corners touches no field.
    pub proof fn lemma_corners_keep_fields(self, atlas: AtlasDimensions, field: Field)
        ensures
            self.with_texture_coordinates(atlas).field(field) == self.field(field),
    {
    }
}

/// Reads one `key=value` token into `char_info`.
///
/// A token that names a recognised key and gives it an integer sets that field; any other
/// token changes nothing.
pub fn fill_in_char_info(char_info: &mut CharacterInfo, line: &str)
    ensures
        *final(char_info) == old(char_info).assigned(line@),
{
    match extract_numeric_value(line) {
        Some((identifier, value)) => {
            match Field::from_key(identifier.as_str()) {
                Some(field) => char_info.set(field, value),
                None => {},
            }
        },
        None => {},
    }
}

/// Places the corners of the glyph's rectangle on the atlas.
///
/// Only a record that knows `x`, `y`, `width` and `height` gets its corners; any other is
/// left as it is.
pub fn calculate_char_texture_coords(char_info: &mut CharacterInfo, atlas_dimensions: AtlasDimensions)
    ensures
        *final(char_info) == old(char_info).with_texture_coordinates(atlas_dimensions),
{
    match char_info.rectangle() {
        Some((x, y, width, height)) => {
            let left: i64 = x as i64;
            let right: i64 = x as i64 + width as i64;
            let top: i64 = atlas_dimensions.height as i64 - y as i64;
            let bottom: i64 = top - height as i64;
            char_info.texture_coordinates = [(left, top), (right, top), (left, bottom), (right, bottom)];
        },
        None => {},
    }
}

} // verus!
