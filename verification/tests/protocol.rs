use sixel_raster::sixel::{
    decode_strip, push_digit, push_digit_u8, scale_component, Color, ColorParser,
    ColorParserState, HeaderParser, HeaderParserState, Pixel, Sixel, SixelDecoder,
};

fn feed(d: &mut SixelDecoder, bytes: &[u8]) {
    for &b in bytes {
        d.put(b);
    }
}

#[test]
fn strip_of_lowest_byte_is_all_clear() {
    assert_eq!(decode_strip(0x3f), [false, false, false, false, false, false]);
}

#[test]
fn strip_of_highest_byte_is_all_set() {
    assert_eq!(decode_strip(0x7e), [true, true, true, true, true, true]);
}

#[test]
fn strip_of_single_bits() {
    assert_eq!(decode_strip(0x40), [true, false, false, false, false, false]);
    assert_eq!(decode_strip(0x41), [false, true, false, false, false, false]);
    assert_eq!(decode_strip(0x43), [false, false, true, false, false, false]);
    assert_eq!(decode_strip(0x47), [false, false, false, true, false, false]);
    assert_eq!(decode_strip(0x4f), [false, false, false, false, true, false]);
    assert_eq!(decode_strip(0x5f), [false, false, false, false, false, true]);
}

#[test]
fn strip_is_a_bijection_over_the_visible_range() {
    let mut seen = [false; 64];
    for byte in 0x3fu8..=0x7e {
        let strip = decode_strip(byte);
        let mut mask: usize = 0;
        for (i, &bit) in strip.iter().enumerate() {
            if bit {
                mask |= 1 << i;
            }
        }
        assert!(!seen[mask], "two bytes map to mask {}", mask);
        seen[mask] = true;
    }
    assert!(seen.iter().all(|&s| s));
}

#[test]
fn header_allocates_declared_buffer_zeroed() {
    let mut d = SixelDecoder::new();
    // Declare a 10 by 20 raster; '$' ends the header and is itself harmless.
    feed(&mut d, b"\"1;1;10;20$");
    assert_eq!(d.xsize, 10);
    assert_eq!(d.ysize, 20);
    let rgb = d.into_rgb();
    assert_eq!(rgb.len(), 10 * 20 * 3);
    assert!(rgb.iter().all(|&b| b == 0));
}

#[test]
fn header_extents_accumulate_decimally() {
    let mut h = HeaderParser::new();
    for &b in b"\"1;1;123;45" {
        h.put(b);
    }
    assert_eq!(h.xsize, 123);
    assert_eq!(h.ysize, 45);
    assert_eq!(h.state, HeaderParserState::VerticalExtent);
    h.put(b'$');
    assert_eq!(h.state, HeaderParserState::Done);
    assert_eq!(h.xsize, 123);
    assert_eq!(h.ysize, 45);
}

#[test]
fn header_aspect_fields_keep_only_the_last_digit() {
    // The aspect fields set rather than accumulate: a multi-digit aspect
    // keeps only its most recent digit, while the extents accumulate.
    let mut h = HeaderParser::new();
    for &b in b"\"12;34;56;78" {
        h.put(b);
    }
    assert_eq!(h.aspect_numerator, 2);
    assert_eq!(h.aspect_denominator, 4);
    assert_eq!(h.xsize, 56);
    assert_eq!(h.ysize, 78);
}

#[test]
fn color_command_scales_to_255_truncating() {
    let mut c = ColorParser::new();
    let mut outcome = ColorParserState::Slot;
    for &b in b"1;2;100;0;0" {
        outcome = c.put(b);
    }
    assert_eq!(outcome, ColorParserState::Blue);
    let terminal = c.put(b'$');
    assert_eq!(terminal, ColorParserState::NewColor(255, 0, 0));
}

#[test]
fn color_command_intermediate_percentages() {
    let mut c = ColorParser::new();
    for &b in b"7;2;50;99;1" {
        c.put(b);
    }
    // 50 -> 127 (truncating), 99 -> 252, 1 -> 2.
    assert_eq!(c.put(b'$'), ColorParserState::NewColor(127, 252, 2));
}

#[test]
fn color_command_defines_next_palette_entry() {
    let mut d = SixelDecoder::new();
    feed(&mut d, b"\"1;1;6;6");
    // Definitions append in order: slot 0 black, then the red definition
    // lands in slot 1.
    feed(&mut d, b"#0;2;0;0;0$");
    feed(&mut d, b"#1;2;100;0;0$");
    assert_eq!(d.colors.len(), 2);
    assert_eq!(d.colors[1], Color { r: 255, g: 0, b: 0 });
    assert_eq!(d.colors[0], Color { r: 0, g: 0, b: 0 });
}

#[test]
fn color_slot_switch_selects_active_slot() {
    let mut d = SixelDecoder::new();
    feed(&mut d, b"\"1;1;6;6");
    feed(&mut d, b"#0;2;0;0;0$#1;2;100;0;0$");
    assert_eq!(d.color, 0);
    feed(&mut d, b"#1$");
    assert_eq!(d.color, 1);
    assert_eq!(d.current_color(), Color { r: 255, g: 0, b: 0 });
}

#[test]
fn invalid_color_command_changes_nothing() {
    let mut d = SixelDecoder::new();
    feed(&mut d, b"\"1;1;6;6$");
    let colors_before = d.colors.len();
    let slot_before = d.color;
    // ';' after the slot expects a color space; a space byte fits no rule,
    // the sub-parse aborts, and the space is ignored by plain dispatch.
    feed(&mut d, b"#5; ");
    assert_eq!(d.colors.len(), colors_before);
    assert_eq!(d.color, slot_before);
    assert_eq!(d.xpos, 0);
}

#[test]
fn drawing_byte_paints_only_set_rows() {
    let mut d = SixelDecoder::new();
    // 6 by 6 raster, slot 0 defined red; the byte terminating the color
    // command is '@' (row-0 bit only), which is re-dispatched and paints.
    feed(&mut d, b"\"1;1;6;6#0;2;100;0;0@");
    assert_eq!(d.xpos, 1);
    let rgb = d.into_rgb();
    assert_eq!(&rgb[0..3], &[255, 0, 0]);
    // Rows 1..=5 of column 0 keep their zero-initialized value.
    for row in 1..6 {
        let base = (row * 6) * 3;
        assert_eq!(&rgb[base..base + 3], &[0, 0, 0]);
    }
}

#[test]
fn repeat_paints_consecutive_columns_and_resets() {
    let mut d = SixelDecoder::new();
    feed(&mut d, b"\"1;1;6;6#0;2;100;0;0$");
    feed(&mut d, b"!3@");
    assert_eq!(d.xpos, 3);
    assert_eq!(d.repeat, 0);
    let rgb = d.into_rgb();
    for col in 0..3 {
        assert_eq!(&rgb[col * 3..col * 3 + 3], &[255, 0, 0]);
    }
    assert_eq!(&rgb[3 * 3..3 * 3 + 3], &[0, 0, 0]);
}

#[test]
fn repeat_of_one_and_zero_also_reset() {
    let mut d = SixelDecoder::new();
    feed(&mut d, b"\"1;1;6;6$");
    feed(&mut d, b"!1@");
    assert_eq!(d.xpos, 1);
    assert_eq!(d.repeat, 0);
    feed(&mut d, b"!0@");
    assert_eq!(d.xpos, 2);
    assert_eq!(d.repeat, 0);
}

#[test]
fn band_advance_moves_down_six_and_returns_to_column_zero() {
    let mut d = SixelDecoder::new();
    feed(&mut d, b"\"1;1;6;12$");
    feed(&mut d, b"@@");
    assert_eq!((d.xpos, d.ypos), (2, 0));
    d.put(b'-');
    assert_eq!((d.xpos, d.ypos), (0, 6));
    d.put(b'-');
    assert_eq!((d.xpos, d.ypos), (0, 12));
}

#[test]
fn same_band_return_keeps_the_band() {
    let mut d = SixelDecoder::new();
    feed(&mut d, b"\"1;1;6;12$");
    feed(&mut d, b"@@@");
    assert_eq!((d.xpos, d.ypos), (3, 0));
    d.put(b'$');
    assert_eq!((d.xpos, d.ypos), (0, 0));
}

#[test]
fn cursor_at_width_clamps_to_column_zero() {
    let mut d = SixelDecoder::new();
    feed(&mut d, b"\"1;1;2;6#0;2;100;0;0$");
    feed(&mut d, b"@@");
    assert_eq!(d.xpos, 2);
    // The defensive clamp: at the declared width the cursor returns to
    // column 0 in the same band instead of erroring.
    d.put(b'@');
    assert_eq!(d.xpos, 1);
    let rgb = d.into_rgb();
    assert_eq!(&rgb[0..3], &[255, 0, 0]);
}

#[test]
fn unhandled_bytes_are_ignored() {
    let mut d = SixelDecoder::new();
    feed(&mut d, b"\"1;1;4;6$");
    let (x, y) = (d.xpos, d.ypos);
    let ncolors = d.colors.len();
    feed(&mut d, b"\n\r\x1b ");
    assert_eq!((d.xpos, d.ypos), (x, y));
    assert_eq!(d.colors.len(), ncolors);
    assert_eq!(d.into_rgb().len(), 4 * 6 * 3);
}

#[test]
fn rows_beyond_the_bottom_edge_are_skipped() {
    // Height 3: only the top 3 rows of the band exist; the lower 3 bits of
    // a full strip must be dropped without error.
    let mut d = SixelDecoder::new();
    feed(&mut d, b"\"1;1;2;3#0;2;100;0;0~");
    let rgb = d.into_rgb();
    assert_eq!(rgb.len(), 2 * 3 * 3);
    for row in 0..3 {
        let base = (row * 2) * 3;
        assert_eq!(&rgb[base..base + 3], &[255, 0, 0], "row {}", row);
        assert_eq!(&rgb[base + 3..base + 6], &[0, 0, 0], "row {}", row);
    }
}

#[test]
fn drawing_before_any_header_paints_nothing() {
    let mut d = SixelDecoder::new();
    d.put(b'?');
    d.put(b'~');
    assert_eq!(d.xsize, 0);
    assert!(d.into_rgb().is_empty());
}

#[test]
fn second_header_reallocates_keeping_prefix() {
    let mut d = SixelDecoder::new();
    feed(&mut d, b"\"1;1;2;6#0;2;100;0;0@");
    // Mid-stream, the dispatcher consumes one '"' to open the header
    // sub-parser, which then expects the introducer itself.
    feed(&mut d, b"\"\"1;1;1;2$");
    assert_eq!(d.xsize, 1);
    assert_eq!(d.ysize, 2);
    let rgb = d.into_rgb();
    assert_eq!(rgb.len(), 1 * 2 * 3);
    // The kept prefix still begins with the red pixel painted before.
    assert_eq!(&rgb[0..3], &[255, 0, 0]);
}

#[test]
fn digit_accumulation_stalls_instead_of_overflowing() {
    assert_eq!(push_digit(12, b'3'), 123);
    assert_eq!(push_digit(usize::MAX, b'5'), usize::MAX);
    assert_eq!(push_digit(usize::MAX / 10, b'9'), usize::MAX / 10);
    assert_eq!(push_digit_u8(10, b'0'), 100);
    assert_eq!(push_digit_u8(25, b'5'), 25);
}

#[test]
fn paint_pixel_overwrites_all_three_bytes() {
    let mut p = Pixel::new([9, 9, 9]);
    Color::new(1, 2, 3).paint_pixel(&mut p);
    assert_eq!(p.rgb, [1, 2, 3]);
}

#[test]
fn sixel_paints_a_strided_column_directly() {
    // A 2-wide, 6-tall buffer; byte 0x42 selects band rows 0 and 1.
    let mut rgb = vec![0u8; 2 * 6 * 3];
    let s = Sixel::new(1, 0, 2);
    s.paint(0x42, Color::new(5, 6, 7), &mut rgb);
    assert_eq!(&rgb[3..6], &[5, 6, 7]);
    assert_eq!(&rgb[9..12], &[5, 6, 7]);
    let zeros = rgb.iter().filter(|&&b| b == 0).count();
    assert_eq!(zeros, 36 - 6);
}

#[test]
fn component_scaling_matches_truncating_formula() {
    assert_eq!(scale_component(0), 0);
    assert_eq!(scale_component(1), 2);
    assert_eq!(scale_component(50), 127);
    assert_eq!(scale_component(100), 255);
}
