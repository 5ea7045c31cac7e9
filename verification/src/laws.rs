//! What holds of every line and of every descriptor.

use crate::atlas::{AtlasDimensions, Corner};
use crate::field::Field;
use crate::glyph::{
    given, inert, last_given, lemma_last_given_at, lemma_last_given_none, CharacterInfo,
};
use crate::number::{lemma_numeral_is_plain, parse_int};
use crate::parser::{glyph_of_line, glyph_record, glyphs_of_lines, is_glyph_line};
use crate::text::{
    is_whitespace, lemma_token_len, lemma_tokens_around, token_len, tokens, whitespace_free,
};
use crate::token::{key_value, lemma_key_value_joined, lemma_key_value_prefix};
use vstd::prelude::*;

verus! {

/// Whether `token` opens with the key of `field` and a `=`.
pub open spec fn names(token: Seq<char>, field: Field) -> bool {
    (field.key() + seq!['=']).is_prefix_of(token)
}

/// Whether `token` stands on its own between `before` and `after`: it is a whitespace-free
/// run of one or more characters, `before` is empty or ends in whitespace, and `after` is
/// empty or begins with whitespace.
pub open spec fn stands_between(before: Seq<char>, token: Seq<char>, after: Seq<char>) -> bool {
    &&& token.len() > 0
    &&& whitespace_free(token)
    &&& before.len() == 0 || is_whitespace(before.last())
    &&& after.len() == 0 || is_whitespace(after[0])
}

/// Every token is a run of one or more characters, none of them whitespace.
pub proof fn law_tokens_are_whitespace_free_runs(s: Seq<char>)
    ensures
        forall|i: int|
            0 <= i < tokens(s).len() ==> (#[trigger] tokens(s)[i]).len() > 0 && whitespace_free(
                tokens(s)[i],
            ),
    decreases s.len(),
{
    if s.len() == 0 {
        assert(tokens(s).len() == 0);
    } else if is_whitespace(s[0]) {
        law_tokens_are_whitespace_free_runs(s.drop_first());
        assert(tokens(s) == tokens(s.drop_first()));
    } else {
        let n = token_len(s) as int;
        let first = s.take(n);
        let rest = tokens(s.skip(n));
        lemma_token_len(s);
        law_tokens_are_whitespace_free_runs(s.skip(n));
        assert(tokens(s) == seq![first] + rest);
        assert forall|i: int| 0 <= i < tokens(s).len() implies (#[trigger] tokens(s)[i]).len() > 0
            && whitespace_free(tokens(s)[i]) by {
            if i > 0 {
                assert(tokens(s)[i] == rest[i - 1]);
            } else {
                assert(tokens(s)[0] == first);
            }
        }
    }
}

/// Text that is all whitespace holds no token.
pub proof fn law_whitespace_holds_no_token(s: Seq<char>)
    requires
        forall|i: int| 0 <= i < s.len() ==> is_whitespace(#[trigger] s[i]),
    ensures
        tokens(s) == Seq::<Seq<char>>::empty(),
    decreases s.len(),
{
    if s.len() > 0 {
        let rest = s.drop_first();
        assert forall|i: int| 0 <= i < rest.len() implies is_whitespace(#[trigger] rest[i]) by {
            assert(rest[i] == s[i + 1]);
        }
        law_whitespace_holds_no_token(rest);
    }
}

/// A token that gives a field a value names that field.
pub proof fn lemma_given_names(token: Seq<char>, field: Field)
    ensures
        given(token, field) is Some ==> names(token, field),
{
    lemma_key_value_prefix(token);
}

/// A token that writes the key of a field, a `=` and an integer gives the field that
/// integer.
pub proof fn lemma_written_is_given(field: Field, numeral: Seq<char>, value: i32)
    requires
        parse_int(numeral) == Some(value),
    ensures
        given(field.key() + seq!['='] + numeral, field) == Some(value),
{
    Field::lemma_key_is_plain(field);
    lemma_numeral_is_plain(numeral);
    lemma_key_value_joined(field.key(), numeral);
}

/// Every field of a record is decided by the last token of the line that gives it a value:
/// it holds that value, and it is absent exactly when no token of the line gives it one.
pub proof fn law_field_is_last_given(line: Seq<char>, atlas: AtlasDimensions, field: Field)
    ensures
        glyph_record(line, atlas).field(field) == last_given(tokens(line), field),
        glyph_record(line, atlas).field(field) is None <==> forall|j: int|
            0 <= j < tokens(line).len() ==> given(#[trigger] tokens(line)[j], field) is None,
{
    let read = CharacterInfo::empty().assigned_all(tokens(line));
    CharacterInfo::empty().lemma_assigned_all_field(tokens(line), field);
    read.lemma_corners_keep_fields(atlas, field);
    lemma_last_given_none(tokens(line), field);
}

/// Where a key is written more than once, the last occurrence wins: if the token at `at`
/// writes the key of `field`, a `=` and an integer, and no later token gives the field a
/// value, the record holds that integer, whatever earlier tokens gave.
pub proof fn law_last_assignment_wins(
    line: Seq<char>,
    atlas: AtlasDimensions,
    field: Field,
    at: int,
    numeral: Seq<char>,
    value: i32,
)
    requires
        0 <= at < tokens(line).len(),
        tokens(line)[at] == field.key() + seq!['='] + numeral,
        parse_int(numeral) == Some(value),
        forall|j: int| at < j < tokens(line).len() ==> given(#[trigger] tokens(line)[j], field) is None,
    ensures
        glyph_record(line, atlas).field(field) == Some(value),
{
    lemma_written_is_given(field, numeral, value);
    lemma_last_given_at(tokens(line), field, at, value);
    law_field_is_last_given(line, atlas, field);
}

/// A line that writes each of the ten keys once, each with an integer, yields a record in
/// which every field holds exactly the integer written for it.
///
/// `place` says at which token each field stands and `numeral` what is written after its
/// `=`; no other token opens with the field's key and a `=`.
pub proof fn law_round_trip(
    line: Seq<char>,
    atlas: AtlasDimensions,
    place: spec_fn(Field) -> int,
    numeral: spec_fn(Field) -> Seq<char>,
)
    requires
        forall|field: Field|
            {
                &&& 0 <= #[trigger] place(field) < tokens(line).len()
                &&& tokens(line)[place(field)] == field.key() + seq!['='] + numeral(field)
                &&& parse_int(numeral(field)) is Some
            },
        forall|field: Field, j: int|
            0 <= j < tokens(line).len() && j != place(field) ==> !#[trigger] names(
                tokens(line)[j],
                field,
            ),
    ensures
        forall|field: Field| #[trigger]
            glyph_record(line, atlas).field(field) == parse_int(numeral(field)),
{
    assert forall|field: Field| #[trigger]
        glyph_record(line, atlas).field(field) == parse_int(numeral(field)) by {
        let at = place(field);
        assert forall|j: int| at < j < tokens(line).len() implies given(
            #[trigger] tokens(line)[j],
            field,
        ) is None by {
            assert(!names(tokens(line)[j], field));
            lemma_given_names(tokens(line)[j], field);
        }
        law_last_assignment_wins(
            line,
            atlas,
            field,
            at,
            numeral(field),
            parse_int(numeral(field))->0,
        );
    }
}

/// A descriptor of one line has the record of that line, or none if it is no glyph line.
pub proof fn lemma_glyphs_single(line: Seq<char>, atlas: AtlasDimensions)
    ensures
        glyphs_of_lines(seq![line], atlas) == match glyph_of_line(line, atlas) {
            Some(record) => seq![record],
            None => Seq::empty(),
        },
{
    let one = seq![line];
    let none = Seq::<Seq<char>>::empty();
    assert(glyphs_of_lines(none, atlas) =~= Seq::<CharacterInfo>::empty());
    assert(one.drop_last() =~= none);
    assert(one.last() == line);
    match glyph_of_line(line, atlas) {
        Some(record) => {
            assert(glyphs_of_lines(one, atlas) =~= seq![record]);
        },
        None => {
            assert(glyphs_of_lines(one, atlas) =~= Seq::<CharacterInfo>::empty());
        },
    }
}

/// The records of a descriptor are those of its first lines followed by those of the rest.
pub proof fn lemma_glyphs_concat(
    first: Seq<Seq<char>>,
    second: Seq<Seq<char>>,
    atlas: AtlasDimensions,
)
    ensures
        glyphs_of_lines(first + second, atlas) == glyphs_of_lines(first, atlas) + glyphs_of_lines(
            second,
            atlas,
        ),
    decreases second.len(),
{
    if second.len() == 0 {
        assert(first + second =~= first);
        assert(glyphs_of_lines(first, atlas) + glyphs_of_lines(second, atlas) =~= glyphs_of_lines(
            first,
            atlas,
        ));
    } else {
        let front = second.drop_last();
        assert((first + second).drop_last() =~= first + front);
        assert((first + second).last() == second.last());
        lemma_glyphs_concat(first, front, atlas);
        assert(glyphs_of_lines(first, atlas) + glyphs_of_lines(second, atlas) =~= glyphs_of_lines(
            first + second,
            atlas,
        ));
    }
}

/// The record of a glyph line stands at the place that the number of glyph lines before it
/// gives.
pub proof fn lemma_record_place(lines: Seq<Seq<char>>, atlas: AtlasDimensions, i: int)
    requires
        0 <= i < lines.len(),
        is_glyph_line(lines[i]),
    ensures
        ({
            let records = glyphs_of_lines(lines, atlas);
            let place = glyphs_of_lines(lines.take(i), atlas).len() as int;
            &&& place < records.len()
            &&& records[place] == glyph_record(lines[i], atlas)
        }),
{
    let head = lines.take(i);
    let one = seq![lines[i]];
    let tail = lines.skip(i + 1);
    assert(lines =~= head + one + tail);
    lemma_glyphs_concat(head + one, tail, atlas);
    lemma_glyphs_concat(head, one, atlas);
    lemma_glyphs_single(lines[i], atlas);
}

/// Records keep the order of their lines: of two glyph lines, the record of the earlier
/// comes before the record of the later, each at the place that the number of glyph lines
/// before its line gives.
pub proof fn law_order_preserved(lines: Seq<Seq<char>>, atlas: AtlasDimensions, i: int, j: int)
    requires
        0 <= i < j < lines.len(),
        is_glyph_line(lines[i]),
        is_glyph_line(lines[j]),
    ensures
        ({
            let records = glyphs_of_lines(lines, atlas);
            let earlier = glyphs_of_lines(lines.take(i), atlas).len() as int;
            let later = glyphs_of_lines(lines.take(j), atlas).len() as int;
            &&& earlier < later < records.len()
            &&& records[earlier] == glyph_record(lines[i], atlas)
            &&& records[later] == glyph_record(lines[j], atlas)
        }),
{
    lemma_record_place(lines, atlas, i);
    lemma_record_place(lines, atlas, j);
    let upto = lines.take(j);
    assert(upto.take(i) =~= lines.take(i));
    assert(upto[i] == lines[i]);
    lemma_record_place(upto, atlas, i);
}

/// Records, once made, stay: the records of the first `count` lines are the first records
/// of the whole descriptor, unchanged by the lines that follow.
pub proof fn law_earlier_records_stay(lines: Seq<Seq<char>>, atlas: AtlasDimensions, count: int)
    requires
        0 <= count <= lines.len(),
    ensures
        glyphs_of_lines(lines.take(count), atlas).is_prefix_of(glyphs_of_lines(lines, atlas)),
{
    let head = lines.take(count);
    let tail = lines.skip(count);
    assert(lines =~= head + tail);
    lemma_glyphs_concat(head, tail, atlas);
    let records = glyphs_of_lines(head, atlas);
    assert((records + glyphs_of_lines(tail, atlas)).subrange(0, records.len() as int) =~= records);
}

/// Reading the same lines against the same atlas again gives the same records: whatever
/// two readings return, they agree in length, field for field and corner for corner.
pub proof fn law_repeatable(
    lines: Seq<Seq<char>>,
    atlas: AtlasDimensions,
    first: Seq<CharacterInfo>,
    second: Seq<CharacterInfo>,
)
    requires
        first == glyphs_of_lines(lines, atlas),
        second == glyphs_of_lines(lines, atlas),
    ensures
        first == second,
        first.len() == second.len(),
        forall|index: int, field: Field|
            0 <= index < first.len() ==> #[trigger] first[index].field(field) == second[index].field(
                field,
            ),
        forall|index: int|
            0 <= index < first.len() ==> (#[trigger] first[index]).texture_coordinates
                == second[index].texture_coordinates,
{
}

/// A token that gives no recognised field a value may be taken out of a line, or put into
/// it, without any change to the record.
pub proof fn lemma_inert_token(
    before: Seq<char>,
    token: Seq<char>,
    after: Seq<char>,
    atlas: AtlasDimensions,
)
    requires
        stands_between(before, token, after),
        inert(token),
    ensures
        glyph_record(before + token + after, atlas) == glyph_record(before + after, atlas),
{
    lemma_tokens_around(before, token, after);
    let start = CharacterInfo::empty();
    let head = tokens(before);
    let tail = tokens(after);
    start.lemma_assigned_all_concat(head, tail);
    start.lemma_assigned_all_concat(head + seq![token], tail);
    assert(head + seq![token] =~= head.push(token));
    start.lemma_assigned_all_push(head, token);
    start.assigned_all(head).lemma_assigned_inert(token);
}

/// An extra token with a key that is none of the ten changes no field and no corner: the
/// record is what it is without the token.
pub proof fn law_unrecognized_key_tolerated(
    before: Seq<char>,
    token: Seq<char>,
    after: Seq<char>,
    atlas: AtlasDimensions,
)
    requires
        stands_between(before, token, after),
        key_value(token) matches Some((key, _)) && Field::of_key(key) is None,
    ensures
        glyph_record(before + token + after, atlas) == glyph_record(before + after, atlas),
{
    assert forall|field: Field| given(token, field) is None by {
        if given(token, field) is Some {
            Field::lemma_of_key(field);
        }
    }
    lemma_inert_token(before, token, after, atlas);
}

/// A token that does not decode, because it holds no `=`, more than one, or no integer after
/// its `=`, sets nothing: the record is what it is without the token, so only the field
/// that the token might have been meant for goes without a value from it.
pub proof fn law_malformed_token_dropped(
    before: Seq<char>,
    token: Seq<char>,
    after: Seq<char>,
    atlas: AtlasDimensions,
)
    requires
        stands_between(before, token, after),
        key_value(token) is None,
    ensures
        glyph_record(before + token + after, atlas) == glyph_record(before + after, atlas),
{
    lemma_inert_token(before, token, after, atlas);
}

/// A line that is no glyph line gives no record and leaves the records of the lines around
/// it as they are.
pub proof fn law_other_lines_skipped(
    before: Seq<Seq<char>>,
    line: Seq<char>,
    after: Seq<Seq<char>>,
    atlas: AtlasDimensions,
)
    requires
        !is_glyph_line(line),
    ensures
        glyphs_of_lines(before + seq![line] + after, atlas) == glyphs_of_lines(before, atlas)
            + glyphs_of_lines(after, atlas),
        glyphs_of_lines(before + seq![line] + after, atlas) == glyphs_of_lines(
            before + after,
            atlas,
        ),
{
    let one = seq![line];
    lemma_glyphs_concat(before + one, after, atlas);
    lemma_glyphs_concat(before, one, atlas);
    lemma_glyphs_concat(before, after, atlas);
    lemma_glyphs_single(line, atlas);
    assert(glyphs_of_lines(before, atlas) + Seq::<CharacterInfo>::empty() =~= glyphs_of_lines(
        before,
        atlas,
    ));
}

/// The corners of a record are those of its pixel rectangle, each exactly where `texel`
/// places it, if the line gives `x`, `y`, `width` and `height`; they are all zero if it
/// leaves any of the four out.
pub proof fn law_corners_follow_rectangle(line: Seq<char>, atlas: AtlasDimensions, corner: Corner)
    ensures
        ({
            let record = glyph_record(line, atlas);
            let placed = record.texture_coordinates[corner.position()];
            match record.pixel_rectangle() {
                Some((x, y, w, h)) => (placed.0 as int, placed.1 as int) == atlas.texel(
                    x,
                    y,
                    w,
                    h,
                    corner,
                ),
                None => placed == (0i64, 0i64),
            }
        }),
{
    CharacterInfo::empty().lemma_assigned_all_field(tokens(line), Field::X);
}

/// A line in which no token gives `x` a value, or none gives `y` one (or `width`, or
/// `height`), keeps all four corners at zero, whatever else it gives.
pub proof fn law_missing_rectangle_keeps_zero_corners(
    line: Seq<char>,
    atlas: AtlasDimensions,
    field: Field,
)
    requires
        field == Field::X || field == Field::Y || field == Field::Width || field == Field::Height,
        forall|j: int| 0 <= j < tokens(line).len() ==> given(#[trigger] tokens(line)[j], field) is None,
    ensures
        glyph_record(line, atlas).texture_coordinates == CharacterInfo::empty().texture_coordinates,
        forall|k: int| 0 <= k < 4 ==> glyph_record(line, atlas).texture_coordinates[k] == (0i64, 0i64),
{
    law_field_is_last_given(line, atlas, field);
    CharacterInfo::empty().lemma_assigned_all_field(tokens(line), field);
}

/// A line that does not so much as name `x` (or `y`, `width`, `height`) keeps all four
/// corners at zero.
pub proof fn law_unnamed_rectangle_keeps_zero_corners(
    line: Seq<char>,
    atlas: AtlasDimensions,
    field: Field,
)
    requires
        field == Field::X || field == Field::Y || field == Field::Width || field == Field::Height,
        forall|j: int| 0 <= j < tokens(line).len() ==> !names(#[trigger] tokens(line)[j], field),
    ensures
        forall|k: int| 0 <= k < 4 ==> glyph_record(line, atlas).texture_coordinates[k] == (0i64, 0i64),
{
    assert forall|j: int| 0 <= j < tokens(line).len() implies given(
        #[trigger] tokens(line)[j],
        field,
    ) is None by {
        lemma_given_names(tokens(line)[j], field);
    }
    law_missing_rectangle_keeps_zero_corners(line, atlas, field);
}

/// A glyph without area has all four corners at one point, its top-left corner.
pub proof fn law_zero_area_corners_coincide(line: Seq<char>, atlas: AtlasDimensions, corner: Corner)
    requires
        glyph_record(line, atlas).width == Some(0i32),
        glyph_record(line, atlas).height == Some(0i32),
    ensures
        glyph_record(line, atlas).texture_coordinates[corner.position()] == glyph_record(
            line,
            atlas,
        ).texture_coordinates[Corner::TopLeft.position()],
{
    law_corners_follow_rectangle(line, atlas, corner);
    law_corners_follow_rectangle(line, atlas, Corner::TopLeft);
}

} // verus!
