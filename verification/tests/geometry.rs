use sixel_raster::graphics::Graphics;
use sixel_raster::image::{gen_vertices, ImageRenderer, ImgShaderProgram, PixelVertex};
use sixel_raster::sixel::SixelDecoder;

#[test]
fn full_cells_when_width_is_an_exact_multiple() {
    // Image 24 by 12, cells 6 by 6: columns 0..=3 each fully covered.
    for column in 0..4 {
        let v = gen_vertices(0, column, 0, 0, 6, 6, 24, 12);
        assert_eq!(v.len(), 6);
        assert_eq!(v[2].x - v[0].x, 6, "column {}", column);
        assert_eq!(v[2].y - v[0].y, 6, "column {}", column);
    }
}

#[test]
fn final_column_covers_exactly_the_remainder() {
    // Image width 6 * 2 + 4: the third cell column holds 4 image pixels.
    let v = gen_vertices(0, 2, 0, 0, 6, 6, 16, 6);
    assert_eq!(v[2].x - v[0].x, 4);
    assert_eq!(v[2].tx - v[0].tx, 4);
    // Height 6 in 6-pixel cells stays fully covered.
    assert_eq!(v[2].y - v[0].y, 6);
}

#[test]
fn vertices_form_two_triangles_with_shared_corners() {
    let v = gen_vertices(3, 5, 2, 1, 8, 10, 100, 40);
    assert_eq!(v.len(), 6);
    assert_eq!(v[0], v[3]);
    assert_eq!(v[2], v[4]);
    // Top-left corner in screen pixels.
    assert_eq!((v[0].x, v[0].y), (5 * 8, 3 * 10));
    // Texture origin of this cell within the image.
    assert_eq!((v[0].tx, v[0].ty), ((5 - 2) * 8, 1 * 10));
    // Bottom-left and top-right share edges with the corners.
    assert_eq!((v[1].x, v[1].y), (v[0].x, v[2].y));
    assert_eq!((v[5].x, v[5].y), (v[2].x, v[0].y));
    assert_eq!((v[1].tx, v[1].ty), (v[0].tx, v[2].ty));
    assert_eq!((v[5].tx, v[5].ty), (v[2].tx, v[0].ty));
}

fn normalize(v: &PixelVertex, screen_w: f64, screen_h: f64, img_w: f64, img_h: f64) -> (f64, f64, f64, f64) {
    (
        2.0 * v.x as f64 / screen_w - 1.0,
        2.0 * v.y as f64 / screen_h - 1.0,
        v.tx as f64 / img_w,
        v.ty as f64 / img_h,
    )
}

#[test]
fn six_by_six_red_raster_maps_onto_first_cell() {
    // End to end: a fully specified 6 by 6 single-color red raster.
    let mut d = SixelDecoder::new();
    for &b in b"\"1;1;6;6#0;2;100;0;0!6~" {
        d.put(b);
    }
    assert_eq!((d.xsize, d.ysize), (6, 6));
    let rgb = d.into_rgb();
    assert_eq!(rgb.len(), 6 * 6 * 3);
    for pixel in rgb.chunks(3) {
        assert_eq!(pixel, &[255, 0, 0]);
    }

    let image = Graphics { id: 7, rgb, height: 6, width: 6, cell_height: 6 };
    // Cell (0, 0) of a 6-pixel grid in a 480 by 144 viewport.
    let v = gen_vertices(0, 0, 0, 0, 6, 6, image.width as usize, image.height as usize);
    let (tlx, tly, ttx, tty) = normalize(&v[0], 480.0, 144.0, 6.0, 6.0);
    let (brx, bry, btx, bty) = normalize(&v[2], 480.0, 144.0, 6.0, 6.0);
    assert!((tlx - -1.0).abs() < 1e-12);
    assert!((tly - -1.0).abs() < 1e-12);
    assert!((brx - (-1.0 + 12.0 / 480.0)).abs() < 1e-12);
    assert!((bry - (-1.0 + 12.0 / 144.0)).abs() < 1e-12);
    assert!((ttx - 0.0).abs() < 1e-12 && (tty - 0.0).abs() < 1e-12);
    assert!((btx - 1.0).abs() < 1e-12 && (bty - 1.0).abs() < 1e-12);
}

#[test]
fn texture_registry_records_first_upload() {
    let mut r = ImageRenderer::new();
    assert_eq!(r.get_tex_id(1), None);
    assert_eq!(r.add_img(1, 10), 10);
    assert_eq!(r.get_tex_id(1), Some(&10));
    // A raster already recorded keeps its first handle, as the original
    // upload stays valid.
    assert_eq!(r.add_img(1, 11), 11);
    assert_eq!(r.get_tex_id(1), Some(&10));
    assert_eq!(r.get_tex_id(2), None);
}

#[test]
fn shader_program_handle_is_plain_data() {
    let p = ImgShaderProgram { id: 42 };
    assert_eq!(p, ImgShaderProgram { id: 42 });
}

#[test]
fn graphics_default_is_empty() {
    let g = Graphics::default();
    assert_eq!(g.id, 0);
    assert!(g.rgb.is_empty());
    assert_eq!((g.width, g.height, g.cell_height), (0, 0, 0));
}
