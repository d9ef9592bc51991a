use soldank::binpack::{pack_rects, Rect};

fn rect(w: i32, h: i32, tag: u32) -> Rect<u32> {
    Rect { x: 0, y: 0, w, h, data: tag }
}

fn overlap(a: &Rect<u32>, b: &Rect<u32>) -> bool {
    a.x < b.x + b.w && b.x < a.x + a.w && a.y < b.y + b.h && b.y < a.y + a.h
}

#[test]
fn rect_edges() {
    let r = Rect { x: 3, y: 4, w: 10, h: 20, data: () };
    assert_eq!(r.left(), 3);
    assert_eq!(r.right(), 13);
    assert_eq!(r.top(), 4);
    assert_eq!(r.bottom(), 24);
}

#[test]
fn rect_contains() {
    let outer = Rect { x: 0, y: 0, w: 10, h: 10, data: () };
    let inner = Rect { x: 2, y: 2, w: 8, h: 8, data: () };
    let across = Rect { x: 5, y: 5, w: 6, h: 2, data: () };
    assert!(outer.contains(&inner));
    assert!(outer.contains(&outer));
    assert!(!outer.contains(&across));
    assert!(!inner.contains(&outer));
}

#[test]
fn pack_fits_all() {
    let mut rects = vec![rect(4, 4, 1), rect(4, 4, 2), rect(8, 4, 3)];
    let n = pack_rects(8, 8, &mut rects);
    assert_eq!(n, 3);
    let mut tags: Vec<u32> = rects.iter().map(|r| r.data).collect();
    tags.sort();
    assert_eq!(tags, vec![1, 2, 3]);
    for (i, a) in rects.iter().enumerate() {
        assert!(a.x >= 0 && a.y >= 0 && a.x + a.w <= 8 && a.y + a.h <= 8);
        for b in rects.iter().skip(i + 1) {
            assert!(!overlap(a, b));
        }
    }
}

#[test]
fn pack_keeps_sizes_with_payload() {
    let mut rects = vec![rect(2, 3, 7), rect(5, 1, 9)];
    let n = pack_rects(16, 16, &mut rects);
    assert_eq!(n, 2);
    for r in &rects {
        match r.data {
            7 => assert_eq!((r.w, r.h), (2, 3)),
            9 => assert_eq!((r.w, r.h), (5, 1)),
            _ => panic!("unexpected payload"),
        }
    }
}

#[test]
fn pack_too_large() {
    let mut rects = vec![rect(9, 9, 1)];
    assert_eq!(pack_rects(8, 8, &mut rects), 0);
    assert_eq!((rects[0].w, rects[0].h, rects[0].data), (9, 9, 1));
}

#[test]
fn pack_partial() {
    let mut rects = vec![rect(8, 8, 1), rect(8, 8, 2)];
    let n = pack_rects(8, 8, &mut rects);
    assert_eq!(n, 1);
    assert_eq!((rects[0].x, rects[0].y), (0, 0));
}

#[test]
fn pack_empty() {
    let mut rects: Vec<Rect<u32>> = vec![];
    assert_eq!(pack_rects(8, 8, &mut rects), 0);
}

#[test]
fn pack_lowest_edge_first() {
    let mut rects = vec![
        Rect { x: 0, y: 0, w: 4, h: 8, data: 'a' },
        Rect { x: 0, y: 0, w: 2, h: 2, data: 'b' },
    ];
    assert_eq!(pack_rects(10, 10, &mut rects), 2);
    assert_eq!((rects[0].x, rects[0].y, rects[0].w, rects[0].h, rects[0].data), (0, 0, 2, 2, 'b'));
    assert_eq!((rects[1].x, rects[1].y, rects[1].w, rects[1].h, rects[1].data), (2, 0, 4, 8, 'a'));
}
