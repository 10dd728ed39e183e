use space_shooter::minimap::{stamp_computable, stamp_fits, Color, MinimapCanvas, PlanetMark, Stamp};

const W: u32 = 12;
const H: u32 = 8;

fn blank(w: u32, h: u32) -> MinimapCanvas {
    MinimapCanvas::from_rgba(w, h, vec![7u8; (w * h * 4) as usize]).unwrap()
}

fn pixel(bytes: &[u8], w: u32, x: u32, y: u32) -> [u8; 4] {
    let b = ((y * w + x) * 4) as usize;
    [bytes[b], bytes[b + 1], bytes[b + 2], bytes[b + 3]]
}

fn count(bytes: &[u8], w: u32, h: u32, c: [u8; 4]) -> usize {
    let mut n = 0;
    for y in 0..h {
        for x in 0..w {
            if pixel(bytes, w, x, y) == c {
                n += 1;
            }
        }
    }
    n
}

const RED: Color = Color { red: 255, green: 0, blue: 0, alpha: 200 };

#[test]
fn canvas_needs_enough_bytes() {
    assert!(MinimapCanvas::from_rgba(2, 2, vec![0; 15]).is_none());
    let c = MinimapCanvas::from_rgba(2, 2, vec![1; 17]).unwrap();
    assert_eq!(c.size(), (2, 2));
    assert_eq!(c.into_rgba(), vec![1; 17]);
}

#[test]
fn disc_covers_circle_points() {
    let mut c = blank(W, H);
    c.paint_disc(5, 4, 2, W, H, RED);
    let bytes = c.into_rgba();
    assert_eq!(count(&bytes, W, H, [255, 0, 0, 200]), 13);
    assert_eq!(pixel(&bytes, W, 5, 2), [255, 0, 0, 200]);
    assert_eq!(pixel(&bytes, W, 6, 5), [255, 0, 0, 200]);
    assert_eq!(pixel(&bytes, W, 7, 6), [7, 7, 7, 7]);
    assert_eq!(pixel(&bytes, W, 5, 1), [7, 7, 7, 7]);
}

#[test]
fn disc_is_clipped() {
    let mut c = blank(W, H);
    c.paint_disc(0, 0, 1, W, H, RED);
    c.paint_disc(6, 2, 1, 7, 3, RED);
    let bytes = c.into_rgba();
    assert_eq!(count(&bytes, W, H, [255, 0, 0, 200]), 3 + 3);
    assert_eq!(pixel(&bytes, W, 7, 2), [7, 7, 7, 7]);
    assert_eq!(pixel(&bytes, W, 6, 3), [7, 7, 7, 7]);
    assert_eq!(pixel(&bytes, W, 5, 2), [255, 0, 0, 200]);
}

#[test]
fn negative_radius_paints_nothing() {
    let mut c = blank(W, H);
    c.paint_disc(5, 5, -3, W, H, RED);
    assert_eq!(c.into_rgba(), vec![7u8; (W * H * 4) as usize]);
}

#[test]
fn square_and_dot() {
    let mut c = blank(W, H);
    c.paint_square(2, 2, 2, W, H, RED);
    c.paint_dot(11, 7, W, H, Color { red: 1, green: 2, blue: 3, alpha: 4 });
    c.paint_dot(12, 7, W, H, Color { red: 1, green: 2, blue: 3, alpha: 4 });
    c.paint_dot(-1, 0, W, H, Color { red: 1, green: 2, blue: 3, alpha: 4 });
    let bytes = c.into_rgba();
    assert_eq!(count(&bytes, W, H, [255, 0, 0, 200]), 25);
    assert_eq!(pixel(&bytes, W, 4, 4), [255, 0, 0, 200]);
    assert_eq!(pixel(&bytes, W, 11, 7), [1, 2, 3, 4]);
    assert_eq!(count(&bytes, W, H, [1, 2, 3, 4]), 1);
}

#[test]
fn paint_leaves_extra_bytes() {
    let mut bytes = vec![0u8; (W * H * 4) as usize];
    bytes.extend_from_slice(&[9, 9, 9]);
    let mut c = MinimapCanvas::from_rgba(W, H, bytes).unwrap();
    c.paint_square(11, 7, 3, W, H, RED);
    let out = c.into_rgba();
    assert_eq!(&out[out.len() - 3..], &[9, 9, 9]);
}

#[test]
fn later_stamps_win() {
    let mut c = blank(W, H);
    let blue = Color { red: 0, green: 0, blue: 255, alpha: 255 };
    c.paint_all(
        &vec![
            Stamp { cx: 3, cy: 3, r: 1, round: false, color: RED },
            Stamp { cx: 4, cy: 4, r: 0, round: false, color: blue },
        ],
        W,
        H,
    );
    let bytes = c.into_rgba();
    assert_eq!(pixel(&bytes, W, 4, 4), [0, 0, 255, 255]);
    assert_eq!(pixel(&bytes, W, 2, 2), [255, 0, 0, 200]);
    assert_eq!(count(&bytes, W, H, [255, 0, 0, 200]), 8);
}

#[test]
fn minimap_draws_in_order() {
    let mut c = blank(W, H);
    let planets = vec![PlanetMark { x: 2, y: 2, radius: 2, red: 10, green: 20, blue: 30 }];
    let drawn = c.try_draw_minimap(&planets, (8, 4), &vec![(3, 2), (20, 20)], &vec![(3, 2), (0, 7)], W, H);
    assert!(drawn);
    let bytes = c.into_rgba();
    assert_eq!(pixel(&bytes, W, 2, 0), [10, 20, 30, 200]);
    assert_eq!(pixel(&bytes, W, 4, 3), [255, 60, 60, 255]);
    assert_eq!(pixel(&bytes, W, 3, 2), [160, 150, 140, 180]);
    assert_eq!(pixel(&bytes, W, 0, 7), [160, 150, 140, 180]);
    assert_eq!(count(&bytes, W, H, [80, 200, 255, 255]), 25);
}

#[test]
fn minimap_refuses_marks_off_the_canvas() {
    let mut c = blank(W, H);
    assert!(!c.try_draw_minimap(&vec![], (1, 1), &vec![], &vec![(W as i32, 0)], W + 1, H));
    assert!(!c.try_draw_minimap(&vec![], (1, H as i32 - 1), &vec![], &vec![], W, H + 5));
    assert_eq!(c.into_rgba(), vec![7u8; (W * H * 4) as usize]);
}

#[test]
fn minimap_draws_with_large_clip_when_marks_fit() {
    let mut c = blank(W, H);
    assert!(c.try_draw_minimap(&vec![], (1, 1), &vec![], &vec![(W as i32 - 1, 0)], W + 10, H + 10));
    let bytes = c.into_rgba();
    assert_eq!(pixel(&bytes, W, W - 1, 0), [160, 150, 140, 180]);
    assert_eq!(count(&bytes, W, H, [80, 200, 255, 255]), 16);
}

#[test]
fn stamp_fit_scan() {
    let disc = Stamp { cx: 10, cy: 3, r: 2, round: true, color: RED };
    assert!(!stamp_fits(&disc, 20, 20, (12, 8)));
    assert!(stamp_fits(&disc, 12, 20, (12, 8)));
    let corner = Stamp { cx: 13, cy: 9, r: 1, round: true, color: RED };
    assert!(stamp_fits(&corner, 20, 20, (15, 11)));
    assert!(!stamp_fits(&corner, 20, 20, (14, 11)));
    assert!(stamp_fits(&corner, 14, 20, (14, 11)));
}

#[test]
fn minimap_refuses_overflowing_marks() {
    let mut c = blank(W, H);
    let planets = vec![PlanetMark { x: 0, y: 0, radius: 40000, red: 1, green: 1, blue: 1 }];
    assert!(!c.try_draw_minimap(&planets, (1, 1), &vec![], &vec![], W, H));
    assert!(!c.try_draw_minimap(&vec![], (i32::MAX, 1), &vec![], &vec![], W, H));
    assert_eq!(c.into_rgba(), vec![7u8; (W * H * 4) as usize]);
}

#[test]
fn stamp_ranges() {
    assert!(stamp_computable(&Stamp { cx: 0, cy: 0, r: 32767, round: true, color: RED }));
    assert!(!stamp_computable(&Stamp { cx: 0, cy: 0, r: 32768, round: true, color: RED }));
    assert!(stamp_computable(&Stamp { cx: 0, cy: 0, r: 32768, round: false, color: RED }));
    assert!(!stamp_computable(&Stamp { cx: 0, cy: 0, r: i32::MIN, round: false, color: RED }));
    assert!(stamp_computable(&Stamp { cx: i32::MAX, cy: 0, r: -5, round: true, color: RED }));
    assert!(!stamp_computable(&Stamp { cx: i32::MAX, cy: 0, r: 1, round: false, color: RED }));
}
