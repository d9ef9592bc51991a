use vstd::prelude::*;

verus! {

/// An axis-aligned rectangle on the integer grid, carrying a payload.
/// It covers the cells `x <= px < x + w`, `y <= py < y + h`.
#[derive(Copy, Clone)]
#[verifier::ext_equal]
pub struct Rect<T> {
    pub x: i32,
    pub y: i32,
    pub w: i32,
    pub h: i32,
    pub data: T,
}

/// The swap of two elements of a slice, as std documents it (it panics when
/// either index is out of bounds).
pub assume_specification<Elt>[ <[Elt]>::swap ](s: &mut [Elt], a: usize, b: usize)
    requires
        a < old(s)@.len(),
        b < old(s)@.len(),
    ensures
        final(s)@ == old(s)@.update(a as int, old(s)@[b as int]).update(b as int, old(s)@[a as int]),
;

pub open spec fn fits_i32(v: int) -> bool {
    i32::MIN <= v <= i32::MAX
}

pub open spec fn rect_right<T>(r: Rect<T>) -> int {
    r.x + r.w
}

pub open spec fn rect_bottom<T>(r: Rect<T>) -> int {
    r.y + r.h
}

/// `right()` and `bottom()` can be computed without overflow.
pub open spec fn rect_wf<T>(r: Rect<T>) -> bool {
    fits_i32(rect_right(r)) && fits_i32(rect_bottom(r))
}

/// `b` lies inside `a` (edges included).
pub open spec fn rect_contains<T, U>(a: Rect<T>, b: Rect<U>) -> bool {
    &&& b.x >= a.x
    &&& b.y >= a.y
    &&& b.x + b.w <= a.x + a.w
    &&& b.y + b.h <= a.y + a.h
}

/// The open interiors of `a` and `b` intersect.
pub open spec fn rects_overlap<T, U>(a: Rect<T>, b: Rect<U>) -> bool {
    &&& a.x < b.x + b.w
    &&& b.x < a.x + a.w
    &&& a.y < b.y + b.h
    &&& b.y < a.y + a.h
}

/// The grid cell `(px, py)` lies in `r`.
pub open spec fn rect_covers_cell<T>(r: Rect<T>, px: int, py: int) -> bool {
    r.x <= px < r.x + r.w && r.y <= py < r.y + r.h
}

/// `r` lies in the bin `[0, width] x [0, height]`.
pub open spec fn within_bin<T>(r: Rect<T>, width: int, height: int) -> bool {
    &&& 0 <= r.x
    &&& 0 <= r.y
    &&& r.x + r.w <= width
    &&& r.y + r.h <= height
}

impl<T> Rect<T> {
    pub fn left(&self) -> (r: i32)
        ensures
            r == self.x,
    {
        self.x
    }

    pub fn right(&self) -> (r: i32)
        requires
            fits_i32(self.x + self.w),
        ensures
            r == self.x + self.w,
    {
        self.x + self.w
    }

    pub fn top(&self) -> (r: i32)
        ensures
            r == self.y,
    {
        self.y
    }

    pub fn bottom(&self) -> (r: i32)
        requires
            fits_i32(self.y + self.h),
        ensures
            r == self.y + self.h,
    {
        self.y + self.h
    }

    /// Whether `rc` lies inside `self`.
    pub fn contains(&self, rc: &Rect<T>) -> (b: bool)
        requires
            rect_wf(*self),
            rect_wf(*rc),
        ensures
            b == rect_contains(*self, *rc),
    {
        rc.left() >= self.left() && rc.top() >= self.top() && rc.right() <= self.right()
            && rc.bottom() <= self.bottom()
    }
}

type BPRect = Rect<()>;

/// The state of the packer: the rectangles placed so far and the free
/// rectangles in which further ones may go.
struct BinPack {
    used: Vec<BPRect>,
    free: Vec<BPRect>,
}

/// A rectangle that the packer can handle without overflow: it starts at a
/// non-negative position and its far edges fit in `i32`.
pub open spec fn placeable<T>(r: Rect<T>) -> bool {
    &&& 0 <= r.x
    &&& 0 <= r.y
    &&& r.x + r.w <= i32::MAX
    &&& r.y + r.h <= i32::MAX
}

pub open spec fn all_placeable(s: Seq<Rect<()>>) -> bool {
    forall|k: int| 0 <= k < s.len() ==> placeable(#[trigger] s[k])
}

pub open spec fn max_score() -> (int, int) {
    (i32::MAX as int, i32::MAX as int)
}

/// Strict lexicographic order on scores.
pub open spec fn score_lt(a: (int, int), b: (int, int)) -> bool {
    a.0 < b.0 || (a.0 == b.0 && a.1 < b.1)
}

/// A `w` x `h` rectangle fits in the free rectangle `f`.
pub open spec fn fits_in(f: Rect<()>, w: int, h: int) -> bool {
    f.w >= w && f.h >= h
}

/// The score of placing a rectangle of height `h` at the top-left corner of
/// `f`: its bottom edge first, then its left edge.
pub open spec fn place_score(f: Rect<()>, h: int) -> (int, int) {
    (f.y + h, f.x as int)
}

/// Free rectangle `k` is the one that `score_rect` picks among the first `n`:
/// the earliest one of lowest score among those in which the rectangle fits.
pub open spec fn best_upto(free: Seq<Rect<()>>, w: int, h: int, k: int, n: int) -> bool {
    &&& 0 <= k < n
    &&& fits_in(free[k], w, h)
    &&& score_lt(place_score(free[k], h), max_score())
    &&& forall|j: int|
        0 <= j < k && fits_in(#[trigger] free[j], w, h) ==> score_lt(
            place_score(free[k], h),
            place_score(free[j], h),
        )
    &&& forall|j: int|
        k < j < n && fits_in(#[trigger] free[j], w, h) ==> !score_lt(
            place_score(free[j], h),
            place_score(free[k], h),
        )
}

/// No free rectangle among the first `n` can take the rectangle with a score
/// below the maximum.
pub open spec fn none_upto(free: Seq<Rect<()>>, w: int, h: int, n: int) -> bool {
    forall|j: int|
        0 <= j < n && fits_in(#[trigger] free[j], w, h) ==> !score_lt(
            place_score(free[j], h),
            max_score(),
        )
}

pub open spec fn zero_rect() -> Rect<()> {
    Rect { x: 0, y: 0, w: 0, h: 0, data: () }
}

/// What `score_rect` returns for a `w` x `h` rectangle.
pub open spec fn score_result(free: Seq<Rect<()>>, w: int, h: int, k: int) -> (Rect<()>, (int, int)) {
    let f = free[k];
    (
        Rect { x: f.x, y: f.y, w: w as i32, h: h as i32, data: () },
        if h == 0 {
            max_score()
        } else {
            place_score(f, h)
        },
    )
}

proof fn lemma_best_unique(free: Seq<Rect<()>>, w: int, h: int, k1: int, k2: int, n: int)
    requires
        best_upto(free, w, h, k1, n),
        best_upto(free, w, h, k2, n),
    ensures
        k1 == k2,
{
    if k1 < k2 {
        assert(fits_in(free[k1], w, h));
    } else if k2 < k1 {
        assert(fits_in(free[k2], w, h));
    }
}

/// Finds where a `w` x `h` rectangle would go: at the top-left corner of the
/// free rectangle that keeps its bottom edge highest, then its left edge
/// leftmost (the earliest such one). Returns the placement and its score; a
/// placement of height 0 means that there is none.
fn score_rect(bp: &BinPack, w: i32, h: i32) -> (res: (BPRect, (i32, i32)))
    requires
        all_placeable(bp.free@),
    ensures
        forall|k: int|
            best_upto(bp.free@, w as int, h as int, k, bp.free@.len() as int) ==> ({
                let s = score_result(bp.free@, w as int, h as int, k);
                res.0 == s.0 && res.1.0 == s.1.0 && res.1.1 == s.1.1
            }),
        none_upto(bp.free@, w as int, h as int, bp.free@.len() as int) ==> res.0 == zero_rect()
            && res.1.0 == i32::MAX && res.1.1 == i32::MAX,
        score_lt((res.1.0 as int, res.1.1 as int), max_score()) ==> res.0.h != 0 && res.0.w == w
            && res.0.h == h && exists|k: int|
            0 <= k < bp.free@.len() && fits_in(#[trigger] bp.free@[k], w as int, h as int) && res.0.x
                == bp.free@[k].x && res.0.y == bp.free@[k].y,
        h != 0 && !none_upto(bp.free@, w as int, h as int, bp.free@.len() as int) ==> score_lt(
            (res.1.0 as int, res.1.1 as int),
            max_score(),
        ),
{
    let mut best_rect = BPRect { x: 0, y: 0, w: 0, h: 0, data: () };
    let mut best_score: (i32, i32) = (i32::MAX, i32::MAX);
    let mut best_k: Ghost<int> = Ghost(-1);
    let mut i: usize = 0;
    while i < bp.free.len()
        invariant
            all_placeable(bp.free@),
            i <= bp.free@.len(),
            best_k@ == -1 ==> none_upto(bp.free@, w as int, h as int, i as int) && best_rect
                == zero_rect() && best_score.0 == i32::MAX && best_score.1 == i32::MAX,
            best_k@ != -1 ==> best_upto(bp.free@, w as int, h as int, best_k@, i as int)
                && best_rect == score_result(bp.free@, w as int, h as int, best_k@).0
                && best_score.0 == place_score(bp.free@[best_k@], h as int).0 && best_score.1
                == place_score(bp.free@[best_k@], h as int).1,
        decreases bp.free@.len() - i,
    {
        let free = bp.free[i];
        assert(placeable(bp.free@[i as int]));
        if free.w >= w && free.h >= h {
            let top_side_y = free.y + h;
            if top_side_y < best_score.0 || (top_side_y == best_score.0 && free.x < best_score.1) {
                best_rect.x = free.x;
                best_rect.y = free.y;
                best_rect.w = w;
                best_rect.h = h;
                best_score = (top_side_y, free.x);
                proof {
                    best_k@ = i as int;
                }
            }
        }
        i = i + 1;
    }
    proof {
        if best_k@ != -1 {
            assert forall|k: int| best_upto(bp.free@, w as int, h as int, k, bp.free@.len() as int)
                implies k == best_k@ by {
                lemma_best_unique(bp.free@, w as int, h as int, k, best_k@, bp.free@.len() as int);
            }
            let f = bp.free@[best_k@];
            assert(best_rect.h == h);
            assert(fits_in(bp.free@[best_k@], w as int, h as int));
        } else {
            assert forall|k: int|
                !best_upto(bp.free@, w as int, h as int, k, bp.free@.len() as int) by {
                if 0 <= k < bp.free@.len() && fits_in(bp.free@[k], w as int, h as int) {
                }
            }
        }
    }
    let s = if best_rect.h == 0 {
        (i32::MAX, i32::MAX)
    } else {
        best_score
    };
    (best_rect, s)
}

/// The parts of the free rectangle `f` that remain free around the used
/// rectangle `u`: above, below, left of and right of it.
pub open spec fn piece_top(f: Rect<()>, u: Rect<()>) -> Seq<Rect<()>> {
    if u.y > f.y && u.y < f.y + f.h {
        seq![Rect { x: f.x, y: f.y, w: f.w, h: (u.y - f.y) as i32, data: () }]
    } else {
        seq![]
    }
}

pub open spec fn piece_bottom(f: Rect<()>, u: Rect<()>) -> Seq<Rect<()>> {
    if u.y + u.h < f.y + f.h {
        seq![
            Rect {
                x: f.x,
                y: (u.y + u.h) as i32,
                w: f.w,
                h: ((f.y + f.h) - (u.y + u.h)) as i32,
                data: (),
            },
        ]
    } else {
        seq![]
    }
}

pub open spec fn piece_left(f: Rect<()>, u: Rect<()>) -> Seq<Rect<()>> {
    if u.x > f.x && u.x < f.x + f.w {
        seq![Rect { x: f.x, y: f.y, w: (u.x - f.x) as i32, h: f.h, data: () }]
    } else {
        seq![]
    }
}

pub open spec fn piece_right(f: Rect<()>, u: Rect<()>) -> Seq<Rect<()>> {
    if u.x + u.w < f.x + f.w {
        seq![
            Rect {
                x: (u.x + u.w) as i32,
                y: f.y,
                w: ((f.x + f.w) - (u.x + u.w)) as i32,
                h: f.h,
                data: (),
            },
        ]
    } else {
        seq![]
    }
}

pub open spec fn split_pieces(f: Rect<()>, u: Rect<()>) -> Seq<Rect<()>> {
    piece_top(f, u) + piece_bottom(f, u) + piece_left(f, u) + piece_right(f, u)
}

/// Each piece of `f` around `u` lies in `f` and off `u`, and together the
/// pieces cover every cell of `f` that `u` does not.
proof fn lemma_split_pieces(f: Rect<()>, u: Rect<()>)
    requires
        placeable(f),
        placeable(u),
        rects_overlap(u, f),
    ensures
        forall|k: int|
            0 <= k < split_pieces(f, u).len() ==> rect_contains(f, #[trigger] split_pieces(f, u)[k])
                && !rects_overlap(u, split_pieces(f, u)[k]),
        forall|px: int, py: int|
            rect_covers_cell(f, px, py) && !rect_covers_cell(u, px, py) ==> exists|k: int|
                0 <= k < split_pieces(f, u).len() && rect_covers_cell(
                    #[trigger] split_pieces(f, u)[k],
                    px,
                    py,
                ),
        split_pieces(f, u).len() <= 4,
{
    let t = piece_top(f, u);
    let b = piece_bottom(f, u);
    let l = piece_left(f, u);
    let r = piece_right(f, u);
    let s = split_pieces(f, u);
    assert(s == t + b + l + r);
    assert forall|k: int| 0 <= k < s.len() implies rect_contains(f, #[trigger] s[k])
        && !rects_overlap(u, s[k]) by {
        if k < t.len() {
            assert(s[k] == t[k]);
        } else if k < t.len() + b.len() {
            assert(s[k] == b[k - t.len()]);
        } else if k < t.len() + b.len() + l.len() {
            assert(s[k] == l[k - t.len() - b.len()]);
        } else {
            assert(s[k] == r[k - t.len() - b.len() - l.len()]);
        }
    }
    assert forall|px: int, py: int|
        rect_covers_cell(f, px, py) && !rect_covers_cell(u, px, py) implies exists|k: int|
        0 <= k < s.len() && rect_covers_cell(#[trigger] s[k], px, py) by {
        if py < u.y {
            assert(s[0] == t[0]);
            assert(rect_covers_cell(s[0], px, py));
        } else if py >= u.y + u.h {
            let k = t.len() as int;
            assert(s[k] == b[0]);
            assert(rect_covers_cell(s[k], px, py));
        } else if px < u.x {
            let k = (t.len() + b.len()) as int;
            assert(s[k] == l[0]);
            assert(rect_covers_cell(s[k], px, py));
        } else {
            let k = (t.len() + b.len() + l.len()) as int;
            assert(s[k] == r[0]);
            assert(rect_covers_cell(s[k], px, py));
        }
    }
}

/// A rectangle of at least one cell on each side.
pub open spec fn proper<T>(r: Rect<T>) -> bool {
    r.w >= 1 && r.h >= 1
}

/// A proper rectangle inside `f` and off `u` lies inside one of the pieces
/// of `f` around `u`.
proof fn lemma_rect_in_piece(f: Rect<()>, u: Rect<()>, r: Rect<()>)
    requires
        placeable(f),
        placeable(u),
        rects_overlap(u, f),
        rect_contains(f, r),
        proper(r),
        !rects_overlap(u, r),
    ensures
        inside_some(r, split_pieces(f, u)),
{
    let t = piece_top(f, u);
    let b = piece_bottom(f, u);
    let l = piece_left(f, u);
    let rr = piece_right(f, u);
    let s = split_pieces(f, u);
    assert(s == t + b + l + rr);
    if u.y >= r.y + r.h {
        assert(s[0] == t[0]);
        assert(rect_contains(s[0], r));
    } else if r.y >= u.y + u.h {
        let k = t.len() as int;
        assert(s[k] == b[0]);
        assert(rect_contains(s[k], r));
    } else if u.x >= r.x + r.w {
        let k = (t.len() + b.len()) as int;
        assert(s[k] == l[0]);
        assert(rect_contains(s[k], r));
    } else {
        let k = (t.len() + b.len() + l.len()) as int;
        assert(s[k] == rr[0]);
        assert(rect_contains(s[k], r));
    }
}

/// When `used_rect` overlaps `free_rect`, appends to the free list the parts
/// of `free_rect` that remain free around it and returns true; otherwise
/// leaves the free list alone and returns false.
fn split_free_rect(bp: &mut BinPack, free_rect: &BPRect, used_rect: &BPRect) -> (res: bool)
    requires
        placeable(*free_rect),
        placeable(*used_rect),
    ensures
        res == rects_overlap(*used_rect, *free_rect),
        final(bp).used@ == old(bp).used@,
        res ==> final(bp).free@ == old(bp).free@ + split_pieces(*free_rect, *used_rect),
        !res ==> final(bp).free@ == old(bp).free@,
{
    if used_rect.left() >= free_rect.right() || used_rect.right() <= free_rect.left()
        || used_rect.top() >= free_rect.bottom() || used_rect.bottom() <= free_rect.top() {
        return false;
    }
    let ghost f = *free_rect;
    let ghost u = *used_rect;
    let ghost start = bp.free@;
    if used_rect.left() < free_rect.right() && used_rect.right() > free_rect.left() {
        if used_rect.top() > free_rect.top() && used_rect.top() < free_rect.bottom() {
            bp.free.push(BPRect { h: used_rect.y - free_rect.y, ..*free_rect });
        }
        assert(bp.free@ == start + piece_top(f, u));
        if used_rect.bottom() < free_rect.bottom() {
            bp.free.push(
                BPRect {
                    y: used_rect.bottom(),
                    h: free_rect.bottom() - used_rect.bottom(),
                    ..*free_rect
                },
            );
        }
        assert(bp.free@ == start + piece_top(f, u) + piece_bottom(f, u));
    }
    let ghost mid = bp.free@;
    if used_rect.top() < free_rect.bottom() && used_rect.bottom() > free_rect.top() {
        if used_rect.left() > free_rect.left() && used_rect.left() < free_rect.right() {
            bp.free.push(BPRect { w: used_rect.x - free_rect.x, ..*free_rect });
        }
        assert(bp.free@ == mid + piece_left(f, u));
        if used_rect.right() < free_rect.right() {
            bp.free.push(
                BPRect {
                    x: used_rect.right(),
                    w: free_rect.right() - used_rect.right(),
                    ..*free_rect
                },
            );
        }
        assert(bp.free@ == mid + piece_left(f, u) + piece_right(f, u));
    }
    assert(bp.free@ == start + split_pieces(f, u));
    true
}

/// Neither of two rectangles lies inside the other.
pub open spec fn no_containment(a: Rect<()>, b: Rect<()>) -> bool {
    !rect_contains(a, b) && !rect_contains(b, a)
}

/// `r` lies inside some rectangle of `t`.
pub open spec fn inside_some(r: Rect<()>, t: Seq<Rect<()>>) -> bool {
    exists|q: int| 0 <= q < t.len() && rect_contains(#[trigger] t[q], r)
}

/// Every rectangle of `s` lies inside some rectangle of `t`.
pub open spec fn covered_by(s: Seq<Rect<()>>, t: Seq<Rect<()>>) -> bool {
    forall|p: int| 0 <= p < s.len() ==> inside_some(#[trigger] s[p], t)
}

/// Every rectangle of `t` is one of `s`.
pub open spec fn drawn_from(t: Seq<Rect<()>>, s: Seq<Rect<()>>) -> bool {
    forall|q: int| 0 <= q < t.len() ==> s.contains(#[trigger] t[q])
}

/// No rectangle of `s` lies inside another one of `s`.
pub open spec fn pairwise_maximal(s: Seq<Rect<()>>) -> bool {
    forall|p: int, q: int|
        0 <= p < s.len() && 0 <= q < s.len() && p != q ==> !rect_contains(
            #[trigger] s[p],
            #[trigger] s[q],
        )
}

/// `src` tells, for each rectangle of `cur`, which rectangle of `orig` it is.
pub open spec fn src_map_ok(cur: Seq<Rect<()>>, orig: Seq<Rect<()>>, src: Seq<int>) -> bool {
    &&& src.len() == cur.len()
    &&& forall|q: int|
        0 <= q < cur.len() ==> 0 <= #[trigger] src[q] < orig.len() && cur[q] == orig[src[q]]
}

/// `cov` tells, for each rectangle of `orig`, a rectangle of `cur` that contains it.
pub open spec fn cov_map_ok(cur: Seq<Rect<()>>, orig: Seq<Rect<()>>, cov: Seq<int>) -> bool {
    &&& cov.len() == orig.len()
    &&& forall|p: int|
        0 <= p < orig.len() ==> 0 <= #[trigger] cov[p] < cur.len() && rect_contains(
            cur[cov[p]],
            orig[p],
        )
}

proof fn lemma_maps_give(cur: Seq<Rect<()>>, orig: Seq<Rect<()>>, src: Seq<int>, cov: Seq<int>)
    requires
        src_map_ok(cur, orig, src),
        cov_map_ok(cur, orig, cov),
    ensures
        drawn_from(cur, orig),
        covered_by(orig, cur),
{
    assert forall|q: int| 0 <= q < cur.len() implies orig.contains(#[trigger] cur[q]) by {
        assert(orig[src[q]] == cur[q]);
    }
    assert forall|p: int| 0 <= p < orig.len() implies inside_some(#[trigger] orig[p], cur) by {
        assert(rect_contains(cur[cov[p]], orig[p]));
    }
}

pub open spec fn shift_after_remove(c: int, idx: int, keeper: int) -> int {
    let c1 = if c == idx {
        keeper
    } else {
        c
    };
    if c1 > idx {
        c1 - 1
    } else {
        c1
    }
}

/// Removing a rectangle that lies inside another one keeps the list drawn
/// from `orig`, covering `orig`, and placeable.
proof fn lemma_remove_contained(
    orig: Seq<Rect<()>>,
    before: Seq<Rect<()>>,
    idx: int,
    keeper: int,
    src: Seq<int>,
    cov: Seq<int>,
) -> (maps: (Seq<int>, Seq<int>))
    requires
        0 <= idx < before.len(),
        0 <= keeper < before.len(),
        keeper != idx,
        rect_contains(before[keeper], before[idx]),
        src_map_ok(before, orig, src),
        cov_map_ok(before, orig, cov),
        all_placeable(before),
    ensures
        src_map_ok(before.remove(idx), orig, maps.0),
        cov_map_ok(before.remove(idx), orig, maps.1),
        all_placeable(before.remove(idx)),
{
    let after = before.remove(idx);
    let src2 = src.remove(idx);
    let cov2 = Seq::new(cov.len(), |p: int| shift_after_remove(cov[p], idx, keeper));
    assert forall|q: int| 0 <= q < after.len() implies 0 <= #[trigger] src2[q] < orig.len()
        && after[q] == orig[src2[q]] by {
        if q < idx {
            assert(src2[q] == src[q]);
        } else {
            assert(src2[q] == src[q + 1]);
        }
    }
    assert forall|p: int| 0 <= p < orig.len() implies 0 <= #[trigger] cov2[p] < after.len()
        && rect_contains(after[cov2[p]], orig[p]) by {
        let c = cov[p];
        let c1 = if c == idx {
            keeper
        } else {
            c
        };
        assert(rect_contains(before[c1], orig[p]));
        if c1 < idx {
            assert(after[c1] == before[c1]);
        } else {
            assert(after[c1 - 1] == before[c1]);
        }
    }
    assert forall|k: int| 0 <= k < after.len() implies placeable(#[trigger] after[k]) by {
        if k < idx {
            assert(after[k] == before[k]);
        } else {
            assert(after[k] == before[k + 1]);
        }
    }
    (src2, cov2)
}

/// The rectangles before `i` are related by containment to no other one.
pub open spec fn prefix_maximal(s: Seq<Rect<()>>, i: int) -> bool {
    forall|p: int, q: int|
        0 <= p < i && 0 <= q < s.len() && p != q ==> no_containment(#[trigger] s[p], #[trigger] s[q])
}

proof fn lemma_prefix_maximal_remove(s: Seq<Rect<()>>, i: int, idx: int)
    requires
        prefix_maximal(s, i),
        i <= idx < s.len(),
    ensures
        prefix_maximal(s.remove(idx), i),
{
    let after = s.remove(idx);
    assert forall|p: int, q: int|
        0 <= p < i && 0 <= q < after.len() && p != q implies no_containment(
        #[trigger] after[p],
        #[trigger] after[q],
    ) by {
        assert(after[p] == s[p]);
        if q < idx {
            assert(after[q] == s[q]);
        } else {
            assert(after[q] == s[q + 1]);
        }
    }
}

/// Removes from the free list every rectangle that lies inside another one.
fn prune_free_list(bp: &mut BinPack)
    requires
        all_placeable(old(bp).free@),
    ensures
        final(bp).used@ == old(bp).used@,
        drawn_from(final(bp).free@, old(bp).free@),
        covered_by(old(bp).free@, final(bp).free@),
        pairwise_maximal(final(bp).free@),
        all_placeable(final(bp).free@),
{
    let ghost orig = bp.free@;
    let ghost mut src: Seq<int> = Seq::new(orig.len(), |q: int| q);
    let ghost mut cov: Seq<int> = Seq::new(orig.len(), |q: int| q);
    let mut i: usize = 0;
    proof {
        assert forall|p: int| 0 <= p < orig.len() implies 0 <= #[trigger] cov[p] < orig.len()
            && rect_contains(orig[cov[p]], orig[p]) by {
        }
    }
    while i < bp.free.len()
        invariant
            bp.used@ == old(bp).used@,
            i <= bp.free@.len(),
            all_placeable(bp.free@),
            src_map_ok(bp.free@, orig, src),
            cov_map_ok(bp.free@, orig, cov),
            prefix_maximal(bp.free@, i as int),
        decreases bp.free@.len() - i,
    {
        let mut j: usize = i + 1;
        let mut removed_i = false;
        let ghost len0 = bp.free@.len();
        while j < bp.free.len()
            invariant_except_break
                forall|q: int| i < q < j ==> no_containment(bp.free@[i as int], #[trigger] bp.free@[q]),
                !removed_i,
            invariant
                bp.used@ == old(bp).used@,
                i < j,
                j <= bp.free@.len() || removed_i,
                all_placeable(bp.free@),
                src_map_ok(bp.free@, orig, src),
                cov_map_ok(bp.free@, orig, cov),
                prefix_maximal(bp.free@, i as int),
                bp.free@.len() <= len0,
            ensures
                i <= bp.free@.len(),
                bp.used@ == old(bp).used@,
                all_placeable(bp.free@),
                src_map_ok(bp.free@, orig, src),
                cov_map_ok(bp.free@, orig, cov),
                prefix_maximal(bp.free@, i as int),
                !removed_i ==> i < bp.free@.len() && forall|q: int|
                    i < q < bp.free@.len() ==> no_containment(bp.free@[i as int], #[trigger] bp.free@[q]),
                removed_i ==> bp.free@.len() < len0,
                !removed_i ==> bp.free@.len() <= len0,
            decreases bp.free@.len() - j,
        {
            let ghost before = bp.free@;
            assert(placeable(before[j as int]) && placeable(before[i as int]));
            if bp.free[j].contains(&bp.free[i]) {
                bp.free.remove(i);
                proof {
                    let maps = lemma_remove_contained(orig, before, i as int, j as int, src, cov);
                    src = maps.0;
                    cov = maps.1;
                    lemma_prefix_maximal_remove(before, i as int, i as int);
                }
                removed_i = true;
                break ;
            } else if bp.free[i].contains(&bp.free[j]) {
                bp.free.remove(j);
                proof {
                    let maps = lemma_remove_contained(orig, before, j as int, i as int, src, cov);
                    src = maps.0;
                    cov = maps.1;
                    lemma_prefix_maximal_remove(before, i as int, j as int);
                    assert forall|q: int| i < q < j implies no_containment(
                        bp.free@[i as int],
                        #[trigger] bp.free@[q],
                    ) by {
                        assert(bp.free@[q] == before[q]);
                    }
                }
            } else {
                j += 1;
            }
        }
        if !removed_i {
            proof {
                let cur = bp.free@;
                assert forall|p: int, q: int|
                    0 <= p < i + 1 && 0 <= q < cur.len() && p != q implies no_containment(
                    #[trigger] cur[p],
                    #[trigger] cur[q],
                ) by {
                    if p == i {
                        if q < i {
                            assert(no_containment(cur[q], cur[p]));
                        }
                    }
                }
            }
            i += 1;
        }
    }
    proof {
        let cur = bp.free@;
        lemma_maps_give(cur, orig, src, cov);
        assert forall|p: int, q: int|
            0 <= p < cur.len() && 0 <= q < cur.len() && p != q implies !rect_contains(
            #[trigger] cur[p],
            #[trigger] cur[q],
        ) by {
            assert(no_containment(cur[p], cur[q]));
        }
    }
}

/// Some rectangle of `s` covers the cell `(px, py)`.
pub open spec fn cell_in_some(s: Seq<Rect<()>>, px: int, py: int) -> bool {
    exists|i: int| 0 <= i < s.len() && rect_covers_cell(#[trigger] s[i], px, py)
}

/// `par` tells, for each rectangle of `cur`, a rectangle of `orig` that contains it.
pub open spec fn parent_map_ok(cur: Seq<Rect<()>>, orig: Seq<Rect<()>>, par: Seq<int>) -> bool {
    &&& par.len() == cur.len()
    &&& forall|t: int|
        0 <= t < cur.len() ==> 0 <= #[trigger] par[t] < orig.len() && rect_contains(
            orig[par[t]],
            cur[t],
        )
}

/// Replacing `f[i]` by its pieces around `u` keeps covered every cell that
/// was covered and lies off `u`.
proof fn lemma_cover_after_split(f: Seq<Rect<()>>, i: int, u: Rect<()>)
    requires
        0 <= i < f.len(),
        placeable(f[i]),
        placeable(u),
        rects_overlap(u, f[i]),
    ensures
        forall|px: int, py: int|
            cell_in_some(f, px, py) && !rect_covers_cell(u, px, py) ==> cell_in_some(
                #[trigger] (f + split_pieces(f[i], u)).remove(i),
                px,
                py,
            ),
{
    let pieces = split_pieces(f[i], u);
    let g = f + pieces;
    let f2 = g.remove(i);
    lemma_split_pieces(f[i], u);
    assert forall|px: int, py: int|
        cell_in_some(f, px, py) && !rect_covers_cell(u, px, py) implies cell_in_some(
        #[trigger] (f + split_pieces(f[i], u)).remove(i),
        px,
        py,
    ) by {
        let t = choose|t: int| 0 <= t < f.len() && rect_covers_cell(f[t], px, py);
        if t == i {
            let k = choose|k: int|
                0 <= k < pieces.len() && rect_covers_cell(#[trigger] pieces[k], px, py);
            assert(f2[f.len() - 1 + k] == g[f.len() + k]);
            assert(g[f.len() + k] == pieces[k]);
            assert(rect_covers_cell(f2[f.len() - 1 + k], px, py));
        } else if t < i {
            assert(f2[t] == f[t]);
            assert(rect_covers_cell(f2[t], px, py));
        } else {
            assert(f2[t - 1] == f[t]);
            assert(rect_covers_cell(f2[t - 1], px, py));
        }
    }
}

/// Replacing `f[i]` by its pieces around `u` keeps every proper rectangle
/// that lay inside a free one and lies off `u` inside a free one.
proof fn lemma_rect_cover_after_split(f: Seq<Rect<()>>, i: int, u: Rect<()>, r: Rect<()>)
    requires
        0 <= i < f.len(),
        placeable(f[i]),
        placeable(u),
        rects_overlap(u, f[i]),
        proper(r),
        inside_some(r, f),
        !rects_overlap(u, r),
    ensures
        inside_some(r, (f + split_pieces(f[i], u)).remove(i)),
{
    let pieces = split_pieces(f[i], u);
    let g = f + pieces;
    let f2 = g.remove(i);
    let t = choose|t: int| 0 <= t < f.len() && rect_contains(#[trigger] f[t], r);
    if t == i {
        lemma_rect_in_piece(f[i], u, r);
        let k = choose|k: int| 0 <= k < pieces.len() && rect_contains(#[trigger] pieces[k], r);
        assert(f2[f.len() - 1 + k] == g[f.len() + k]);
        assert(rect_contains(f2[f.len() - 1 + k], r));
    } else if t < i {
        assert(f2[t] == f[t]);
    } else {
        assert(f2[t - 1] == f[t]);
    }
}

/// Places `rect`: every free rectangle that it overlaps is replaced by the
/// parts of it that remain free, the free list is pruned, and `rect` is
/// recorded as used.
fn place_rect(bp: &mut BinPack, rect: &BPRect)
    requires
        all_placeable(old(bp).free@),
        placeable(*rect),
    ensures
        final(bp).used@ == old(bp).used@.push(*rect),
        all_placeable(final(bp).free@),
        pairwise_maximal(final(bp).free@),
        forall|t: int|
            0 <= t < final(bp).free@.len() ==> inside_some(#[trigger] final(bp).free@[t], old(bp).free@)
                && !rects_overlap(*rect, final(bp).free@[t]),
        forall|px: int, py: int|
            cell_in_some(old(bp).free@, px, py) && !rect_covers_cell(*rect, px, py) ==> #[trigger] cell_in_some(
                final(bp).free@,
                px,
                py,
            ),
        forall|r: Rect<()>|
            proper(r) && inside_some(r, old(bp).free@) && !rects_overlap(*rect, r) ==> #[trigger] inside_some(
                r,
                final(bp).free@,
            ),
{
    let ghost orig = bp.free@;
    let ghost n = orig.len() as int;
    let ghost mut k: int = 0;
    let ghost mut par: Seq<int> = Seq::new(orig.len(), |t: int| t);
    let mut i: usize = 0;
    while i < bp.free.len()
        invariant
            bp.used@ == old(bp).used@,
            placeable(*rect),
            0 <= k <= n,
            i + (n - k) <= bp.free@.len(),
            forall|t: int| i <= t < i + (n - k) ==> #[trigger] bp.free@[t] == orig[t - i + k],
            forall|t: int| 0 <= t < i ==> !rects_overlap(*rect, #[trigger] bp.free@[t]),
            forall|t: int|
                i + (n - k) <= t < bp.free@.len() ==> !rects_overlap(*rect, #[trigger] bp.free@[t]),
            all_placeable(bp.free@),
            parent_map_ok(bp.free@, orig, par),
            forall|r: Rect<()>|
                proper(r) && inside_some(r, orig) && !rects_overlap(*rect, r) ==> #[trigger] inside_some(
                    r,
                    bp.free@,
                ),
            forall|px: int, py: int|
                cell_in_some(orig, px, py) && !rect_covers_cell(*rect, px, py) ==> #[trigger] cell_in_some(
                    bp.free@,
                    px,
                    py,
                ),
        decreases (n - k) * 5 + bp.free@.len() - i,
    {
        let free_rect = bp.free[i];
        let ghost before = bp.free@;
        proof {
            assert(placeable(before[i as int]));
        }
        if split_free_rect(bp, &free_rect, rect) {
            let ghost pushed = bp.free@;
            proof {
                lemma_split_pieces(free_rect, *rect);
                lemma_cover_after_split(before, i as int, *rect);
                assert forall|r: Rect<()>|
                    proper(r) && inside_some(r, orig) && !rects_overlap(*rect, r) implies #[trigger] inside_some(
                    r,
                    (before + split_pieces(before[i as int], *rect)).remove(i as int),
                ) by {
                    lemma_rect_cover_after_split(before, i as int, *rect, r);
                }
            }
            bp.free.remove(i);
            proof {
                let after = bp.free@;
                let pieces = split_pieces(free_rect, *rect);
                assert(after == (before + pieces).remove(i as int));
                // the rectangle at `i` was the next unprocessed one of `orig`
                assert(i < i + (n - k));
                assert forall|t: int| i <= t < i + (n - k - 1) implies #[trigger] after[t] == orig[t
                    - i + k + 1] by {
                    assert(after[t] == before[t + 1]);
                }
                let par2 = Seq::new(
                    after.len(),
                    |t: int|
                        if t < i {
                            par[t]
                        } else if t < before.len() - 1 {
                            par[t + 1]
                        } else {
                            par[i as int]
                        },
                );
                assert forall|t: int| 0 <= t < after.len() implies 0 <= #[trigger] par2[t] < orig.len()
                    && rect_contains(orig[par2[t]], after[t]) by {
                    if t < i {
                        assert(after[t] == before[t]);
                    } else if t < before.len() - 1 {
                        assert(after[t] == before[t + 1]);
                    } else {
                        let kk = t - (before.len() - 1);
                        assert(after[t] == pieces[kk]);
                        assert(rect_contains(before[i as int], pieces[kk]));
                    }
                }
                assert forall|t: int| 0 <= t < i implies !rects_overlap(*rect, #[trigger] after[t]) by {
                    assert(after[t] == before[t]);
                }
                assert forall|t: int| i + (n - k - 1) <= t < after.len() implies !rects_overlap(
                    *rect,
                    #[trigger] after[t],
                ) by {
                    if t < before.len() - 1 {
                        assert(after[t] == before[t + 1]);
                    } else {
                        let kk = t - (before.len() - 1);
                        assert(after[t] == pieces[kk]);
                    }
                }
                assert forall|t: int| 0 <= t < after.len() implies placeable(#[trigger] after[t]) by {
                    if t < before.len() - 1 {
                        if t < i {
                            assert(after[t] == before[t]);
                        } else {
                            assert(after[t] == before[t + 1]);
                        }
                    } else {
                        let kk = t - (before.len() - 1);
                        assert(after[t] == pieces[kk]);
                        assert(rect_contains(before[i as int], pieces[kk]));
                    }
                }
                par = par2;
                k = k + 1;
            }
        } else {
            proof {
                if i < i + (n - k) {
                    k = k + 1;
                }
            }
            i += 1;
        }
    }
    proof {
        let cur = bp.free@;
        assert forall|t: int| 0 <= t < cur.len() implies !rects_overlap(*rect, #[trigger] cur[t]) by {
        }
    }
    let ghost mid = bp.free@;
    prune_free_list(bp);
    proof {
        let fin = bp.free@;
        assert forall|t: int| 0 <= t < fin.len() implies inside_some(#[trigger] fin[t], orig)
            && !rects_overlap(*rect, fin[t]) by {
            assert(mid.contains(fin[t]));
            let m = choose|m: int| 0 <= m < mid.len() && mid[m] == fin[t];
            assert(rect_contains(orig[par[m]], mid[m]));
            assert(!rects_overlap(*rect, mid[m]));
        }
        assert forall|px: int, py: int|
            cell_in_some(orig, px, py) && !rect_covers_cell(*rect, px, py) implies #[trigger] cell_in_some(
            fin,
            px,
            py,
        ) by {
            assert(cell_in_some(mid, px, py));
            let m = choose|m: int| 0 <= m < mid.len() && rect_covers_cell(mid[m], px, py);
            assert(inside_some(mid[m], fin));
            let q = choose|q: int| 0 <= q < fin.len() && rect_contains(fin[q], mid[m]);
            assert(rect_covers_cell(fin[q], px, py));
        }
        assert forall|r: Rect<()>|
            proper(r) && inside_some(r, orig) && !rects_overlap(*rect, r) implies #[trigger] inside_some(
            r,
            fin,
        ) by {
            assert(inside_some(r, mid));
            let m = choose|m: int| 0 <= m < mid.len() && rect_contains(#[trigger] mid[m], r);
            assert(inside_some(mid[m], fin));
            let q = choose|q: int| 0 <= q < fin.len() && rect_contains(#[trigger] fin[q], mid[m]);
            assert(rect_contains(fin[q], r));
        }
    }
    bp.used.push(*rect);
}

/// A rearrangement of the indices `0..n`.
pub open spec fn is_permutation(perm: Seq<int>, n: int) -> bool {
    &&& perm.len() == n
    &&& forall|p: int| 0 <= p < n ==> 0 <= #[trigger] perm[p] < n
    &&& forall|p: int, q: int| 0 <= p < n && 0 <= q < n && p != q ==> #[trigger] perm[p] != #[trigger] perm[q]
}

/// `a` has the size and payload of `b` (its position may differ).
pub open spec fn same_size_and_data<T>(a: Rect<T>, b: Rect<T>) -> bool {
    a.w == b.w && a.h == b.h && a.data == b.data
}

/// The first `k` rectangles of `after` are placed: inside the bin, of non-zero
/// height, and pairwise non-overlapping.
pub open spec fn placed_prefix<T>(after: Seq<Rect<T>>, k: int, width: int, height: int) -> bool {
    &&& forall|p: int| 0 <= p < k ==> within_bin(#[trigger] after[p], width, height) && after[p].h != 0
    &&& forall|p: int, q: int|
        0 <= p < k && 0 <= q < k && p != q ==> !rects_overlap(#[trigger] after[p], #[trigger] after[q])
}

/// `after` is `before` rearranged by `perm`, with the first `k` rectangles
/// moved (sizes and payloads kept) and the others unchanged.
pub open spec fn rearranged<T>(before: Seq<Rect<T>>, after: Seq<Rect<T>>, perm: Seq<int>, k: int) -> bool {
    &&& after.len() == before.len()
    &&& is_permutation(perm, before.len() as int)
    &&& forall|p: int|
        0 <= p < after.len() ==> same_size_and_data(#[trigger] after[p], before[perm[p]])
    &&& forall|p: int| k <= p < after.len() ==> #[trigger] after[p] == before[perm[p]]
}

proof fn lemma_inside_keeps_off<U>(f: Rect<()>, g: Rect<()>, u: Rect<U>)
    requires
        rect_contains(f, g),
        !rects_overlap(f, u),
    ensures
        !rects_overlap(g, u),
{
}

/// A `w` x `h` rectangle can stand somewhere in the `width` x `height` bin
/// without overlapping any of the first `k` rectangles of `rects`.
pub open spec fn fits_beside<T>(rects: Seq<Rect<T>>, k: int, width: int, height: int, w: i32, h: i32) -> bool {
    exists|r: Rect<()>|
        r.w == w && r.h == h && within_bin(r, width, height) && forall|p: int|
            0 <= p < k ==> !rects_overlap(r, #[trigger] rects[p])
}

/// Packs the rectangles into a `width` x `height` bin, largest-fit first by
/// the bottom-left rule (MaxRects): at each step, among the rectangles not
/// yet placed, the one whose best placement scores lowest is placed and moved
/// to the front. Returns how many rectangles were placed: they are the first
/// ones of `rects` afterwards, each with its position set. Stops at the first
/// step at which no remaining rectangle of non-zero height fits.
pub fn pack_rects<T>(width: i32, height: i32, rects: &mut [Rect<T>]) -> (packed: usize)
    ensures
        packed <= final(rects)@.len(),
        exists|perm: Seq<int>| rearranged(old(rects)@, final(rects)@, perm, packed as int),
        placed_prefix(final(rects)@, packed as int, width as int, height as int),
        forall|j: int|
            packed <= j < final(rects)@.len() && proper(#[trigger] final(rects)@[j]) ==> !fits_beside(
                final(rects)@,
                packed as int,
                width as int,
                height as int,
                final(rects)@[j].w,
                final(rects)@[j].h,
            ),
{
    let mut bp = BinPack {
        used: vec![],
        free: vec![BPRect { x: 0, y: 0, w: width, h: height, data: () }],
    };
    let ghost orig = rects@;
    let ghost n = rects@.len() as int;
    let ghost mut perm: Seq<int> = Seq::new(rects@.len(), |p: int| p);
    let mut i: usize = 0;
    proof {
        assert forall|r: Rect<()>|
            proper(r) && within_bin(r, width as int, height as int) && (forall|p: int|
                0 <= p < 0 ==> !rects_overlap(r, #[trigger] rects@[p])) implies #[trigger] inside_some(
            r,
            bp.free@,
        ) by {
            assert(rect_contains(bp.free@[0], r));
        }
    }
    while i < rects.len()
        invariant
            rects@.len() == n,
            orig.len() == n,
            orig == old(rects)@,
            0 <= i <= n,
            rearranged(orig, rects@, perm, i as int),
            placed_prefix(rects@, i as int, width as int, height as int),
            forall|t: int|
                0 <= t < bp.free@.len() ==> within_bin(#[trigger] bp.free@[t], width as int, height as int),
            forall|t: int, p: int|
                0 <= t < bp.free@.len() && 0 <= p < i ==> !rects_overlap(
                    #[trigger] bp.free@[t],
                    #[trigger] rects@[p],
                ),
            forall|r: Rect<()>|
                proper(r) && within_bin(r, width as int, height as int) && (forall|p: int|
                    0 <= p < i ==> !rects_overlap(r, #[trigger] rects@[p])) ==> #[trigger] inside_some(
                    r,
                    bp.free@,
                ),
        decreases n - i,
    {
        let mut best_index = rects.len();
        let mut best_rect = BPRect { x: 0, y: 0, w: 0, h: 0, data: () };
        let mut best_score: (i32, i32) = (i32::MAX, i32::MAX);
        let ghost mut best_t: int = 0;
        proof {
            assert forall|k: int| 0 <= k < bp.free@.len() implies placeable(#[trigger] bp.free@[k]) by {
                assert(within_bin(bp.free@[k], width as int, height as int));
            }
        }
        let mut j: usize = i;
        while j < rects.len()
            invariant
                rects@.len() == n,
                i <= j <= n,
                all_placeable(bp.free@),
                best_index == n || i <= best_index < j,
                best_index == n ==> best_rect.h == 0 && best_score.0 == i32::MAX && best_score.1
                    == i32::MAX,
                best_index < n ==> best_rect.h != 0 && best_rect.w == rects@[best_index as int].w
                    && best_rect.h == rects@[best_index as int].h && 0 <= best_t < bp.free@.len()
                    && fits_in(bp.free@[best_t], best_rect.w as int, best_rect.h as int)
                    && best_rect.x == bp.free@[best_t].x && best_rect.y == bp.free@[best_t].y,
                score_lt((best_score.0 as int, best_score.1 as int), max_score()) || (best_score.0
                    == i32::MAX && best_score.1 == i32::MAX),
                best_index == n ==> forall|q: int|
                    i <= q < j ==> (#[trigger] rects@[q]).h == 0 || none_upto(
                        bp.free@,
                        rects@[q].w as int,
                        rects@[q].h as int,
                        bp.free@.len() as int,
                    ),
            decreases n - j,
        {
            let (rc, score) = score_rect(&bp, rects[j].w, rects[j].h);
            proof {
                if best_index == n && !(score.0 < best_score.0 || (score.0 == best_score.0 && score.1
                    < best_score.1)) {
                    assert(!score_lt((score.0 as int, score.1 as int), max_score()));
                }
            }
            if score.0 < best_score.0 || (score.0 == best_score.0 && score.1 < best_score.1) {
                proof {
                    assert(score_lt((score.0 as int, score.1 as int), max_score()));
                    best_t = choose|k: int|
                        0 <= k < bp.free@.len() && fits_in(
                            #[trigger] bp.free@[k],
                            rects@[j as int].w as int,
                            rects@[j as int].h as int,
                        ) && rc.x == bp.free@[k].x && rc.y == bp.free@[k].y;
                }
                best_index = j;
                best_score = score;
                best_rect = rc;
            }
            j += 1;
        }
        if best_index < rects.len() && best_rect.h != 0 {
            let ghost old_free = bp.free@;
            let ghost before = rects@;
            proof {
                let f = old_free[best_t];
                assert(within_bin(f, width as int, height as int));
                assert(rect_contains(f, best_rect));
                assert forall|p: int| 0 <= p < i implies !rects_overlap(best_rect, #[trigger] before[p]) by {
                    assert(!rects_overlap(old_free[best_t], before[p]));
                    lemma_inside_keeps_off(f, best_rect, before[p]);
                }
            }
            place_rect(&mut bp, &best_rect);
            rects[best_index].x = best_rect.x;
            rects[best_index].y = best_rect.y;
            rects[best_index].w = best_rect.w;
            rects[best_index].h = best_rect.h;
            rects.swap(i, best_index);
            proof {
                let after = rects@;
                let bi = best_index as int;
                let perm2 = perm.update(i as int, perm[bi]).update(bi, perm[i as int]);
                assert(after[i as int].x == best_rect.x && after[i as int].y == best_rect.y);
                assert(after[i as int].w == best_rect.w && after[i as int].h == best_rect.h);
                assert forall|p: int| 0 <= p < after.len() && p != i && p != bi implies #[trigger] after[p]
                    == before[p] by {
                }
                if bi != i {
                    assert(after[bi] == before[i as int]);
                }
                assert forall|p: int, q: int| 0 <= p < n && 0 <= q < n && p != q implies #[trigger] perm2[p]
                    != #[trigger] perm2[q] by {
                    assert(perm[p] != perm[q] || p == q);
                    if p == i as int || p == bi || q == i as int || q == bi {
                        assert(perm[i as int] != perm[bi] || i as int == bi);
                        if p != i as int && p != bi {
                            assert(perm[p] != perm[i as int]);
                            assert(perm[p] != perm[bi]);
                        }
                        if q != i as int && q != bi {
                            assert(perm[q] != perm[i as int]);
                            assert(perm[q] != perm[bi]);
                        }
                    }
                }
                assert forall|p: int| 0 <= p < n implies 0 <= #[trigger] perm2[p] < n by {
                }
                assert forall|p: int| 0 <= p < after.len() implies same_size_and_data(
                    #[trigger] after[p],
                    orig[perm2[p]],
                ) by {
                    if p == i as int {
                        assert(same_size_and_data(before[bi], orig[perm[bi]]));
                    } else if p == bi {
                        assert(same_size_and_data(before[i as int], orig[perm[i as int]]));
                    } else {
                        assert(same_size_and_data(before[p], orig[perm[p]]));
                    }
                }
                assert forall|p: int| i + 1 <= p < after.len() implies #[trigger] after[p]
                    == orig[perm2[p]] by {
                    if p == bi {
                        assert(before[i as int] == orig[perm[i as int]]);
                    } else {
                        assert(before[p] == orig[perm[p]]);
                    }
                }
                assert forall|p: int| 0 <= p < i + 1 implies within_bin(
                    #[trigger] after[p],
                    width as int,
                    height as int,
                ) && after[p].h != 0 by {
                    if p < i {
                        assert(after[p] == before[p]);
                    }
                }
                assert forall|p: int, q: int|
                    0 <= p < i + 1 && 0 <= q < i + 1 && p != q implies !rects_overlap(
                    #[trigger] after[p],
                    #[trigger] after[q],
                ) by {
                    if p < i {
                        assert(after[p] == before[p]);
                    }
                    if q < i {
                        assert(after[q] == before[q]);
                    }
                }
                let new_free = bp.free@;
                assert forall|t: int| 0 <= t < new_free.len() implies within_bin(
                    #[trigger] new_free[t],
                    width as int,
                    height as int,
                ) by {
                    assert(inside_some(new_free[t], old_free));
                    let q = choose|q: int| 0 <= q < old_free.len() && rect_contains(old_free[q], new_free[t]);
                    assert(within_bin(old_free[q], width as int, height as int));
                }
                assert forall|t: int, p: int|
                    0 <= t < new_free.len() && 0 <= p < i + 1 implies !rects_overlap(
                    #[trigger] new_free[t],
                    #[trigger] after[p],
                ) by {
                    if p < i {
                        assert(after[p] == before[p]);
                        assert(inside_some(new_free[t], old_free));
                        let q = choose|q: int|
                            0 <= q < old_free.len() && rect_contains(old_free[q], new_free[t]);
                        assert(!rects_overlap(old_free[q], before[p]));
                        lemma_inside_keeps_off(old_free[q], new_free[t], before[p]);
                    } else {
                        assert(!rects_overlap(best_rect, new_free[t]));
                    }
                }
                assert forall|r: Rect<()>|
                    proper(r) && within_bin(r, width as int, height as int) && (forall|p: int|
                        0 <= p < i + 1 ==> !rects_overlap(r, #[trigger] after[p])) implies #[trigger] inside_some(
                    r,
                    new_free,
                ) by {
                    assert forall|p: int| 0 <= p < i implies !rects_overlap(r, #[trigger] before[p]) by {
                        assert(after[p] == before[p]);
                        assert(!rects_overlap(r, after[p]));
                    }
                    assert(!rects_overlap(r, after[i as int]));
                    assert(!rects_overlap(best_rect, r));
                    assert(inside_some(r, old_free));
                }
                perm = perm2;
            }
        } else {
            assert(rearranged(orig, rects@, perm, i as int));
            proof {
                let cur = rects@;
                assert(best_index == n);
                assert forall|jj: int|
                    i <= jj < cur.len() && proper(#[trigger] cur[jj]) implies !fits_beside(
                    cur,
                    i as int,
                    width as int,
                    height as int,
                    cur[jj].w,
                    cur[jj].h,
                ) by {
                    if fits_beside(cur, i as int, width as int, height as int, cur[jj].w, cur[jj].h) {
                        let r = choose|r: Rect<()>|
                            r.w == cur[jj].w && r.h == cur[jj].h && within_bin(r, width as int, height as int)
                                && forall|p: int| 0 <= p < i ==> !rects_overlap(r, #[trigger] cur[p]);
                        assert(inside_some(r, bp.free@));
                        let q = choose|q: int| 0 <= q < bp.free@.len() && rect_contains(#[trigger] bp.free@[q], r);
                        let f = bp.free@[q];
                        assert(within_bin(f, width as int, height as int));
                        assert(fits_in(f, cur[jj].w as int, cur[jj].h as int));
                        assert(none_upto(bp.free@, cur[jj].w as int, cur[jj].h as int, bp.free@.len() as int));
                        assert(!score_lt(place_score(f, cur[jj].h as int), max_score()));
                    }
                }
            }
            return i;
        }
        i += 1;
    }
    rects.len()
}

} // verus!
