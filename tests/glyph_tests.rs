use bagel::glyph::{glyph, GLYPH_COUNT};

const TABLE: &str = " .,-~:;=!*#$@";

fn table_position(c: char) -> usize {
    TABLE.chars().position(|t| t == c).expect("glyph from the table")
}

#[test]
fn zero_level_draws_space() {
    assert_eq!(glyph(0), ' ');
}

#[test]
fn each_level_draws_its_table_entry() {
    let expected: Vec<char> = TABLE.chars().collect();
    assert_eq!(expected.len(), GLYPH_COUNT);
    for (level, c) in expected.iter().enumerate() {
        assert_eq!(glyph(level), *c, "level {}", level);
    }
}

#[test]
fn last_level_draws_at_sign() {
    assert_eq!(glyph(GLYPH_COUNT - 1), '@');
}

#[test]
fn levels_past_the_table_clamp_to_last_glyph() {
    assert_eq!(glyph(GLYPH_COUNT), '@');
    assert_eq!(glyph(500), '@');
    assert_eq!(glyph(usize::MAX), '@');
}

#[test]
fn brighter_levels_never_draw_dimmer_glyphs() {
    let mut previous = 0usize;
    for level in 0..40usize {
        let position = table_position(glyph(level));
        assert!(position >= previous, "level {}", level);
        previous = position;
    }
    assert_eq!(previous, GLYPH_COUNT - 1);
}
