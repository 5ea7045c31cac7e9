//! The keys that a glyph line may assign.

use crate::text::{spells, to_chars, whitespace_free};
use vstd::prelude::*;

verus! {

/// A field of a glyph record that a `key=value` token can fill.
#[derive(Copy, Clone, Debug, PartialEq, Eq)]
pub enum Field {
    Id,
    X,
    Y,
    Width,
    Height,
    XOffset,
    YOffset,
    XAdvance,
    Page,
    Chnl,
}

impl Field {
    /// The key under which a descriptor line names this field.
    pub open spec fn key(self) -> Seq<char> {
        match self {
            Field::Id => "id"@,
            Field::X => "x"@,
            Field::Y => "y"@,
            Field::Width => "width"@,
            Field::Height => "height"@,
            Field::XOffset => "xoffset"@,
            Field::YOffset => "yoffset"@,
            Field::XAdvance => "xadvance"@,
            Field::Page => "page"@,
            Field::Chnl => "chnl"@,
        }
    }

    /// The field that `key` names, compared exactly; no field for any other key.
    pub open spec fn of_key(key: Seq<char>) -> Option<Field> {
        if exists|field: Field| #[trigger] field.key() == key {
            Some(choose|field: Field| #[trigger] field.key() == key)
        } else {
            None
        }
    }

    /// The characters of each key.
    pub proof fn lemma_key_spelling(field: Field)
        ensures
            field.key() == match field {
                Field::Id => seq!['i', 'd'],
                Field::X => seq!['x'],
                Field::Y => seq!['y'],
                Field::Width => seq!['w', 'i', 'd', 't', 'h'],
                Field::Height => seq!['h', 'e', 'i', 'g', 'h', 't'],
                Field::XOffset => seq!['x', 'o', 'f', 'f', 's', 'e', 't'],
                Field::YOffset => seq!['y', 'o', 'f', 'f', 's', 'e', 't'],
                Field::XAdvance => seq!['x', 'a', 'd', 'v', 'a', 'n', 'c', 'e'],
                Field::Page => seq!['p', 'a', 'g', 'e'],
                Field::Chnl => seq!['c', 'h', 'n', 'l'],
            },
            field.key().len() == match field {
                Field::X | Field::Y => 1nat,
                Field::Id => 2,
                Field::Page | Field::Chnl => 4,
                Field::Width => 5,
                Field::Height => 6,
                Field::XOffset | Field::YOffset => 7,
                Field::XAdvance => 8,
            },
            field.key()[0] == match field {
                Field::Id => 'i',
                Field::X | Field::XOffset | Field::XAdvance => 'x',
                Field::Y | Field::YOffset => 'y',
                Field::Width => 'w',
                Field::Height => 'h',
                Field::Page => 'p',
                Field::Chnl => 'c',
            },
    {
        reveal_strlit("id");
        reveal_strlit("x");
        reveal_strlit("y");
        reveal_strlit("width");
        reveal_strlit("height");
        reveal_strlit("xoffset");
        reveal_strlit("yoffset");
        reveal_strlit("xadvance");
        reveal_strlit("page");
        reveal_strlit("chnl");
        assert("id"@ =~= seq!['i', 'd']);
        assert("x"@ =~= seq!['x']);
        assert("y"@ =~= seq!['y']);
        assert("width"@ =~= seq!['w', 'i', 'd', 't', 'h']);
        assert("height"@ =~= seq!['h', 'e', 'i', 'g', 'h', 't']);
        assert("xoffset"@ =~= seq!['x', 'o', 'f', 'f', 's', 'e', 't']);
        assert("yoffset"@ =~= seq!['y', 'o', 'f', 'f', 's', 'e', 't']);
        assert("xadvance"@ =~= seq!['x', 'a', 'd', 'v', 'a', 'n', 'c', 'e']);
        assert("page"@ =~= seq!['p', 'a', 'g', 'e']);
        assert("chnl"@ =~= seq!['c', 'h', 'n', 'l']);
    }

    /// No two fields share a key.
    pub proof fn lemma_keys_differ(a: Field, b: Field)
        requires
            a.key() == b.key(),
        ensures
            a == b,
    {
        Field::lemma_key_spelling(a);
        Field::lemma_key_spelling(b);
    }

    /// Each field is the one that its own key names.
    pub proof fn lemma_of_key(field: Field)
        ensures
            Field::of_key(field.key()) == Some(field),
    {
        let found = choose|other: Field| #[trigger] other.key() == field.key();
        Field::lemma_keys_differ(found, field);
    }

    /// A key is one or more characters, none of them `=` or whitespace.
    pub proof fn lemma_key_is_plain(field: Field)
        ensures
            field.key().len() > 0,
            whitespace_free(field.key()),
            !field.key().contains('='),
    {
        Field::lemma_key_spelling(field);
    }

    /// Looks up the field that `key` names.
    pub fn from_key(key: &str) -> (r: Option<Field>)
        ensures
            r == Field::of_key(key@),
    {
        let chars = to_chars(key);
        let r = if spells(&chars, "id") {
            Some(Field::Id)
        } else if spells(&chars, "x") {
            Some(Field::X)
        } else if spells(&chars, "y") {
            Some(Field::Y)
        } else if spells(&chars, "width") {
            Some(Field::Width)
        } else if spells(&chars, "height") {
            Some(Field::Height)
        } else if spells(&chars, "xoffset") {
            Some(Field::XOffset)
        } else if spells(&chars, "yoffset") {
            Some(Field::YOffset)
        } else if spells(&chars, "xadvance") {
            Some(Field::XAdvance)
        } else if spells(&chars, "page") {
            Some(Field::Page)
        } else if spells(&chars, "chnl") {
            Some(Field::Chnl)
        } else {
            None
        };
        proof {
            match r {
                Some(field) => {
                    assert(field.key() == key@);
                    Field::lemma_of_key(field);
                },
                None => {
                    assert forall|field: Field| #[trigger] field.key() != key@ by {}
                },
            }
        }
        r
    }
}

} // verus!
