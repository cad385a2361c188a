use omnis_app::layout::Rect;
use omnis_app::raster::{Raster, Rgb};

const INK: Rgb = (200, 100, 50);

fn painted(r: &Raster) -> Vec<(i32, i32)> {
    let mut out = Vec::new();
    for y in 0..r.height as i32 {
        for x in 0..r.width as i32 {
            if r.get(x, y).unwrap()[3] != 0 {
                out.push((x, y));
            }
        }
    }
    out
}

#[test]
fn glyphs_paint_five_by_seven_inside_a_six_by_eight_cell() {
    let mut r = Raster::new(12, 16);
    r.glyph('A', 0, 0, INK);
    let cells = painted(&r);
    assert_eq!(cells.len(), 18, "A has 18 ink pixels");
    assert!(cells.iter().all(|&(x, y)| x < 5 && y < 7));
    assert_eq!(r.get(2, 0), Some([200, 100, 50, 255]));
    assert_eq!(r.get(5, 3), Some([0, 0, 0, 0]));
    assert_eq!(r.get(0, 7), Some([0, 0, 0, 0]));
}

#[test]
fn text_advances_one_cell_and_clips_at_the_edge() {
    let mut r = Raster::new(320, 8);
    r.text(0, 0, "I I", INK);
    let cells = painted(&r);
    assert!(cells.iter().any(|&(x, _)| x == 2), "first I at column 2");
    assert!(
        cells.iter().all(|&(x, _)| !(5..12).contains(&x)),
        "the space is blank"
    );
    assert!(cells.iter().any(|&(x, _)| x == 14), "third glyph at 12 + 2");
    let mut edge = Raster::new(320, 8);
    edge.text(316, 0, "HH", INK);
    assert!(painted(&edge).iter().all(|&(x, _)| (316..320).contains(&x)));
    assert!(!painted(&edge).is_empty());
}

#[test]
fn strokes_touch_only_the_border_and_fills_cover_the_rectangle() {
    let mut r = Raster::new(10, 10);
    r.stroke(Rect::new(2, 3, 4, 3), INK);
    let cells = painted(&r);
    assert_eq!(cells.len(), 4 + 4 + 1 + 1);
    assert!(r.get(3, 4).unwrap()[3] == 0, "the inside is untouched");
    assert!(r.get(2, 3).unwrap()[3] == 255 && r.get(5, 5).unwrap()[3] == 255);
    let mut f = Raster::new(10, 10);
    f.fill(Rect::new(8, 8, 5, 5), INK);
    assert_eq!(painted(&f).len(), 4, "clipped to the buffer");
    f.clear();
    assert!(painted(&f).is_empty());
    r.stroke(Rect::new(0, 0, 0, 5), INK);
    assert_eq!(painted(&r).len(), 10, "an empty rectangle paints nothing");
}

#[test]
fn the_marker_is_a_three_by_five_triangle() {
    let mut r = Raster::new(8, 8);
    r.marker(1, 1, INK);
    assert_eq!(
        painted(&r),
        vec![
            (1, 1),
            (1, 2),
            (2, 2),
            (1, 3),
            (2, 3),
            (3, 3),
            (1, 4),
            (2, 4),
            (1, 5)
        ]
    );
}

#[test]
fn set_writes_one_opaque_pixel_and_get_refuses_outside() {
    let mut r = Raster::default();
    r.set(319, 179, INK);
    assert_eq!(r.get(319, 179), Some([200, 100, 50, 255]));
    assert_eq!(r.get(318, 179), Some([0, 0, 0, 0]));
    assert_eq!(r.get(1280, 0), None);
    assert_eq!(r.get(-1, 0), None);
    r.set(5000, 5000, INK);
    assert_eq!(painted(&r).len(), 1);
}

#[test]
fn erase_clears_only_the_rectangle() {
    let mut r = Raster::new(10, 10);
    r.fill(Rect::new(0, 0, 10, 10), INK);
    r.erase(Rect::new(2, 2, 3, 3));
    assert_eq!(painted(&r).len(), 100 - 9);
    assert_eq!(r.get(3, 3), Some([0, 0, 0, 0]));
    assert_eq!(r.get(5, 5), Some([200, 100, 50, 255]));
}

#[test]
fn the_origin_moves_every_paint() {
    let mut r = Raster::new(20, 20);
    r.origin = (5, 6);
    r.set(0, 0, INK);
    assert_eq!(r.get(5, 6), Some([200, 100, 50, 255]));
    assert_eq!(r.get(0, 0), Some([0, 0, 0, 0]));
    r.reset(4, 4);
    assert_eq!((r.width, r.height, r.origin), (4, 4, (0, 0)));
    assert!(painted(&r).is_empty());
}

#[test]
fn fingerprints_change_with_the_pixels() {
    let mut a = Raster::default();
    let b = a.clone();
    assert_eq!(a.fingerprint(), b.fingerprint());
    a.set(319, 179, INK);
    assert_ne!(a.fingerprint(), b.fingerprint());
    assert_eq!(a.get(omnis_app::layout::CANVAS_WIDTH as i32, 0), None, "past the last column");
}
