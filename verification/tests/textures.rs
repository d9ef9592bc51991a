use soldank::render::{colors_and_alpha, premultiply_image, remove_color_key, rgb, rgba};
use soldank::spritesheet::{layout_sprites, pack_recursive, SheetRect};
use soldank::binpack::Rect;

#[test]
fn color_key_removed() {
    let mut px = vec![1, 2, 3, 4, 0, 255, 0, 255, 0, 255, 0, 254];
    remove_color_key(&mut px, rgba(0, 255, 0, 255));
    assert_eq!(px, vec![1, 2, 3, 4, 0, 0, 0, 0, 0, 255, 0, 254]);
}

#[test]
fn premultiply_pixels() {
    let mut px = vec![255, 128, 0, 128, 200, 100, 50, 255, 9, 9, 9, 0];
    premultiply_image(&mut px);
    assert_eq!(px, vec![128, 64, 0, 128, 200, 100, 50, 255, 0, 0, 0, 0]);
}

#[test]
fn premultiply_agrees_with_float_rule() {
    for a in 0..=255u8 {
        for c in 0..=255u8 {
            let mut px = vec![c, c, c, a];
            premultiply_image(&mut px);
            let f = a as f32 / 255.0;
            let expected = (c as f32 * f) as u8;
            assert_eq!(px[0], expected, "c {} a {}", c, a);
        }
    }
}

fn overlap(a: &SheetRect, b: &SheetRect) -> bool {
    a.x < b.x + b.w && b.x < a.x + a.w && a.y < b.y + b.h && b.y < a.y + a.h
}

fn check_layout(rects: &[SheetRect], sheets: &[(i32, i32)], pad: i32, n: usize) {
    let mut seen: Vec<usize> = rects.iter().map(|r| r.data.0).collect();
    seen.sort();
    assert_eq!(seen, (0..n).collect::<Vec<_>>());
    for (i, a) in rects.iter().enumerate() {
        let (w, h) = sheets[a.data.1];
        assert!(a.x >= 0 && a.y >= 0 && a.x + a.w <= w + pad && a.y + a.h <= h + pad);
        for b in rects.iter().skip(i + 1) {
            if a.data.1 == b.data.1 {
                assert!(!overlap(a, b));
            }
        }
    }
}

#[test]
fn one_sprite_one_sheet() {
    let (rects, sheets) = layout_sprites(&vec![(30, 20)], 8, 1024);
    assert_eq!(sheets, vec![(30, 20)]);
    assert_eq!((rects[0].x, rects[0].y, rects[0].w, rects[0].h, rects[0].data), (0, 0, 38, 28, (0, 0)));
}

#[test]
fn sprites_share_a_sheet() {
    let sizes = vec![(16, 16), (16, 16), (32, 8), (8, 32)];
    let (rects, sheets) = layout_sprites(&sizes, 2, 1024);
    assert_eq!(sheets.len(), 1);
    let (w, h) = sheets[0];
    assert!(w.count_ones() == 1 && h.count_ones() == 1);
    check_layout(&rects, &sheets, 2, sizes.len());
}

#[test]
fn sprites_split_over_sheets() {
    let sizes = vec![(60, 60), (60, 60), (60, 60), (60, 60), (10, 10)];
    let (rects, sheets) = layout_sprites(&sizes, 0, 64);
    assert!(sheets.len() >= 4);
    for s in &sheets {
        assert!(s.0 <= 64 && s.1 <= 64);
    }
    check_layout(&rects, &sheets, 0, sizes.len());
}

#[test]
fn large_sprites_are_capped() {
    let (rects, sheets) = layout_sprites(&vec![(5000, 10), (10, 10)], 1, 256);
    check_layout(&rects, &sheets, 1, 2);
    let big = rects.iter().find(|r| r.data.0 == 0).unwrap();
    assert_eq!((big.w, big.h), (257, 11));
}

#[test]
fn recursive_keeps_other_sprites() {
    let mut rects: Vec<SheetRect> = (0..4).map(|i| Rect { x: 7, y: 7, w: 4, h: 4, data: (i, 9) }).collect();
    let mut sheets = vec![(1, 1)];
    pack_recursive(&mut rects, 1, 3, &mut sheets, 0, 64);
    assert_eq!((rects[0].x, rects[0].data), (7, (0, 9)));
    assert_eq!((rects[3].x, rects[3].data), (7, (3, 9)));
    assert_eq!(sheets[0], (1, 1));
    assert_eq!(sheets.len(), 2);
    assert_eq!(rects[1].data.1, 1);
    assert_eq!(rects[2].data.1, 1);
}

#[test]
fn soldier_tints() {
    let (colors, alphas) = colors_and_alpha(5, 200, 17);
    assert_eq!(colors[0], rgb(255, 255, 255));
    assert_eq!(colors[3], rgb(230, 180, 120));
    assert_eq!(colors[5], rgb(97, 97, 97));
    assert_eq!(colors[6], rgb(172, 169, 168));
    assert_eq!(alphas, [200, 17, 150]);
    let (colors, _) = colors_and_alpha(10, 255, 0);
    assert_eq!(colors[5], rgb(255, 255, 255));
}

#[test]
fn nades_alpha_agrees_with_float_rule() {
    for a in 0..=255u8 {
        let (_, alphas) = colors_and_alpha(0, a, 0);
        assert_eq!(alphas[2], (0.75 * f32::from(a)).round() as u8, "alpha {}", a);
    }
}
