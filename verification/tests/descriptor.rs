//! Whole descriptors: glyph lines among other lines, and the records they yield.

use bmfont_glyphs::{
    extract_characters, AtlasDimensions, CharacterInfo, BOTTOM_LEFT_INDEX, BOTTOM_RIGHT_INDEX,
    TOP_LEFT_INDEX, TOP_RIGHT_INDEX,
};

const ATLAS_WIDTH: i32 = 512;
const ATLAS_HEIGHT: i32 = 512;

const HEADER: [&str; 4] = [
    "info face=\"Arial\" size=72 bold=0 italic=0 charset=\"\" unicode=1 stretchH=100 smooth=1 aa=1 padding=0,0,0,0 spacing=1,1 outline=0",
    "common lineHeight=80 base=65 scaleW=512 scaleH=512 pages=1 packed=0 alphaChnl=1 redChnl=0 greenChnl=0 blueChnl=0",
    "page id=0 file=\"arial_0.png\"",
    "chars count=3",
];

const FIRST_CHAR: &str =
    "char id=124  x=0     y=0     width=22    height=72    xoffset=-3    yoffset=3     xadvance=30    page=0  chnl=0";
const THIRD_CHAR: &str =
    "char id=124  x=256   y=256   width=22    height=72    xoffset=-3    yoffset=3     xadvance=30    page=0  chnl=0";

/// The lines of the descriptor of the given name: three glyph lines under a header, of
/// which only the second differs from one descriptor to the next.
fn descriptor(name: &str) -> Vec<String> {
    let second = match name {
        "validFormat.fnt" => {
            "char id=32   x=0     y=0     width=0     height=0     xoffset=0     yoffset=53    xadvance=32    page=0  chnl=0"
        }
        "added_parameter.fnt" => {
            "char id=32   x=0     y=0     width=0     height=0     xoffset=0     yoffset=53    xadvance=32    page=0  chnl=0  kerning=12"
        }
        "missing_parameters.fnt" => {
            "char id=32   width=0     height=0     xoffset=0     yoffset=53    xadvance=32    page=0  chnl=0"
        }
        "mispelled_parameters.fnt" => {
            "char id=32   x=0     yy=0     widht=0     heigth=0     xofset=0     yoffsett=53    xadvanse=32    pag=0  chanl=0"
        }
        "unrecognized_line.fnt" => {
            "character id=32   x=0     y=0     width=0     height=0     xoffset=0     yoffset=53    xadvance=32    page=0  chnl=0"
        }
        "incorrect_format.fnt" => {
            "char id=32   x=0     y=0     width=0     height=0     xoffset=0     yoffset==53    xadvance=3a2    page=0  chnl=0"
        }
        other => panic!("no descriptor named {}", other),
    };
    let mut lines: Vec<String> = HEADER.iter().map(|line| line.to_string()).collect();
    lines.push(FIRST_CHAR.to_string());
    lines.push(second.to_string());
    lines.push(THIRD_CHAR.to_string());
    lines
}

fn atlas() -> AtlasDimensions {
    AtlasDimensions { width: ATLAS_WIDTH, height: ATLAS_HEIGHT }
}

/// The place of `value` among all `f32` values, in increasing order.
fn ordered(value: f32) -> i64 {
    let bits = value.to_bits() as i32;
    if bits < 0 {
        (i32::MIN as i64) - (bits as i64)
    } else {
        bits as i64
    }
}

/// The number of representable `f32` values between `a` and `b`.
fn ulps_apart(a: f32, b: f32) -> u32 {
    (ordered(a) - ordered(b)).unsigned_abs() as u32
}

fn approx_eq(a: f32, b: f32) -> bool {
    a == b || ulps_apart(a, b) <= 2
}

/// The corner at `index`, normalised by the atlas dimensions.
fn normalised(char_info: &CharacterInfo, index: usize) -> (f32, f32) {
    let (across, up) = char_info.texture_coordinates[index];
    (across as f32 / ATLAS_WIDTH as f32, up as f32 / ATLAS_HEIGHT as f32)
}

fn validate_first_untouched_char(char_info: &CharacterInfo) {
    assert_eq!(Some(124), char_info.id);
    assert_eq!(Some(0), char_info.x);
    assert_eq!(Some(0), char_info.y);
    assert_eq!(Some(22), char_info.width);
    assert_eq!(Some(72), char_info.height);
    assert_eq!(Some(-3), char_info.x_offset);
    assert_eq!(Some(3), char_info.y_offset);
    assert_eq!(Some(30), char_info.x_advance);
    assert_eq!(Some(0), char_info.page);
    assert_eq!(Some(0), char_info.chnl);
}

fn validate_second_untouched_char(char_info: &CharacterInfo) {
    assert_eq!(Some(124), char_info.id);
    assert_eq!(Some(256), char_info.x);
    assert_eq!(Some(256), char_info.y);
    assert_eq!(Some(22), char_info.width);
    assert_eq!(Some(72), char_info.height);
    assert_eq!(Some(-3), char_info.x_offset);
    assert_eq!(Some(3), char_info.y_offset);
    assert_eq!(Some(30), char_info.x_advance);
    assert_eq!(Some(0), char_info.page);
    assert_eq!(Some(0), char_info.chnl);
}

fn validate_tex_coords(char_info: &CharacterInfo, min: (f32, f32), max: (f32, f32)) {
    let (char_min_x, char_min_y) = min;
    let (char_max_x, char_max_y) = max;

    assert!(approx_eq(normalised(char_info, TOP_LEFT_INDEX).0, char_min_x));
    assert!(approx_eq(normalised(char_info, TOP_LEFT_INDEX).1, char_min_y));

    assert!(approx_eq(normalised(char_info, TOP_RIGHT_INDEX).0, char_max_x));
    assert!(approx_eq(normalised(char_info, TOP_RIGHT_INDEX).1, char_min_y));

    assert!(approx_eq(normalised(char_info, BOTTOM_LEFT_INDEX).0, char_min_x));
    assert!(approx_eq(normalised(char_info, BOTTOM_LEFT_INDEX).1, char_max_y));

    assert!(approx_eq(normalised(char_info, BOTTOM_RIGHT_INDEX).0, char_max_x));
    assert!(approx_eq(normalised(char_info, BOTTOM_RIGHT_INDEX).1, char_max_y));
}

// The bitmap's rows count from the top, texture coordinates from the bottom.

fn validate_first_char_tex_coords(char_info: &CharacterInfo) {
    let char_min_x = 0.0_f32;
    let char_min_y = 1.0_f32;
    let char_max_x = char_min_x + (22 as f32 / ATLAS_WIDTH as f32);
    let char_max_y = char_min_y - (72 as f32 / ATLAS_HEIGHT as f32);
    validate_tex_coords(char_info, (char_min_x, char_min_y), (char_max_x, char_max_y));
}

fn validate_second_char_tex_coords(char_info: &CharacterInfo) {
    let char_min_x = 0.0_f32;
    let char_min_y = 1.0_f32;
    let char_max_x = char_min_x;
    let char_max_y = char_min_y;
    validate_tex_coords(char_info, (char_min_x, char_min_y), (char_max_x, char_max_y));
}

fn validate_third_char_tex_coords(char_info: &CharacterInfo) {
    let char_min_x = 0.5_f32;
    let char_min_y = 0.5_f32;
    let char_max_x = char_min_x + (22 as f32 / ATLAS_WIDTH as f32);
    let char_max_y = char_min_y - (72 as f32 / ATLAS_HEIGHT as f32);
    validate_tex_coords(char_info, (char_min_x, char_min_y), (char_max_x, char_max_y));
}

fn check_all_valid_characters(characters: Vec<CharacterInfo>) {
    assert_eq!(3, characters.len());

    let second_char = &characters[1];
    assert_eq!(Some(32), second_char.id);
    assert_eq!(Some(0), second_char.x);
    assert_eq!(Some(0), second_char.y);
    assert_eq!(Some(0), second_char.width);
    assert_eq!(Some(0), second_char.height);
    assert_eq!(Some(0), second_char.x_offset);
    assert_eq!(Some(53), second_char.y_offset);
    assert_eq!(Some(32), second_char.x_advance);
    assert_eq!(Some(0), second_char.page);
    assert_eq!(Some(0), second_char.chnl);

    validate_first_untouched_char(&characters[0]);
    validate_second_untouched_char(&characters[2]);
    validate_first_char_tex_coords(&characters[0]);
    validate_second_char_tex_coords(&characters[1]);
    validate_third_char_tex_coords(&characters[2]);
}

#[test]
fn check_valid_file() {
    let lines = descriptor("validFormat.fnt");
    let characters = extract_characters(&lines, atlas());
    check_all_valid_characters(characters);
}

#[test]
fn check_added_parameter() {
    let lines = descriptor("added_parameter.fnt");
    let characters = extract_characters(&lines, atlas());
    check_all_valid_characters(characters);
}

#[test]
fn check_missing_parameters() {
    let lines = descriptor("missing_parameters.fnt");
    let characters = extract_characters(&lines, atlas());

    assert_eq!(3, characters.len());

    let second_char = &characters[1];
    assert_eq!(Some(32), second_char.id);
    assert_eq!(None, second_char.x);
    assert_eq!(None, second_char.y);
    assert_eq!(Some(0), second_char.width);
    assert_eq!(Some(0), second_char.height);
    assert_eq!(Some(0), second_char.x_offset);
    assert_eq!(Some(53), second_char.y_offset);
    assert_eq!(Some(32), second_char.x_advance);
    assert_eq!(Some(0), second_char.page);
    assert_eq!(Some(0), second_char.chnl);

    validate_first_untouched_char(&characters[0]);
    validate_second_untouched_char(&characters[2]);
    validate_first_char_tex_coords(&characters[0]);
    validate_third_char_tex_coords(&characters[2]);

    assert_eq!([(0, 0), (0, 0), (0, 0), (0, 0)], second_char.texture_coordinates);
}

#[test]
fn check_mispelled_parameters() {
    let lines = descriptor("mispelled_parameters.fnt");
    let characters = extract_characters(&lines, atlas());

    assert_eq!(3, characters.len());

    let second_char = &characters[1];
    assert_eq!(Some(32), second_char.id);
    assert_eq!(Some(0), second_char.x);
    assert_eq!(None, second_char.y);
    assert_eq!(None, second_char.width);
    assert_eq!(None, second_char.height);
    assert_eq!(None, second_char.x_offset);
    assert_eq!(None, second_char.y_offset);
    assert_eq!(None, second_char.x_advance);
    assert_eq!(None, second_char.page);
    assert_eq!(None, second_char.chnl);

    validate_first_untouched_char(&characters[0]);
    validate_second_untouched_char(&characters[2]);
    validate_first_char_tex_coords(&characters[0]);
    validate_third_char_tex_coords(&characters[2]);

    assert_eq!([(0, 0), (0, 0), (0, 0), (0, 0)], second_char.texture_coordinates);
}

#[test]
fn check_unrecognized_line() {
    let lines = descriptor("unrecognized_line.fnt");
    let characters = extract_characters(&lines, atlas());

    // The second glyph's line does not start with "char id", so it is passed over.

    assert_eq!(2, characters.len());
    validate_first_untouched_char(&characters[0]);
    validate_second_untouched_char(&characters[1]);
    validate_first_char_tex_coords(&characters[0]);
    validate_third_char_tex_coords(&characters[1]);
}

#[test]
fn check_incorrect_format() {
    let lines = descriptor("incorrect_format.fnt");
    let characters = extract_characters(&lines, atlas());

    assert_eq!(3, characters.len());

    let second_char = &characters[1];
    assert_eq!(Some(32), second_char.id);
    assert_eq!(Some(0), second_char.x);
    assert_eq!(Some(0), second_char.y);
    assert_eq!(Some(0), second_char.width);
    assert_eq!(Some(0), second_char.height);
    assert_eq!(Some(0), second_char.x_offset);
    assert_eq!(None, second_char.y_offset);
    assert_eq!(None, second_char.x_advance);
    assert_eq!(Some(0), second_char.page);
    assert_eq!(Some(0), second_char.chnl);

    validate_first_untouched_char(&characters[0]);
    validate_second_untouched_char(&characters[2]);
    validate_first_char_tex_coords(&characters[0]);
    validate_second_char_tex_coords(&characters[1]);
    validate_third_char_tex_coords(&characters[2]);
}
