use vstd::prelude::*;
use crate::binpack::{
    pack_rects, Rect, rearranged, placed_prefix, is_permutation, same_size_and_data, within_bin, rects_overlap,
    fits_beside, proper,
};

verus! {

/// A sprite's rectangle on a sheet; its payload is the sprite's position in
/// the list of sprites and the sheet it lands on.
pub type SheetRect = Rect<(usize, usize)>;

/// What packing keeps of a rectangle: its size and its sprite.
pub open spec fn rect_key(r: SheetRect) -> (i32, i32, usize) {
    (r.w, r.h, r.data.0)
}

/// `after` holds the rectangles of `before` in `lo..hi` in another order
/// (`perm` says where each came from), moved and assigned to sheets, and
/// leaves the others alone.
pub open spec fn moved_within(before: Seq<SheetRect>, after: Seq<SheetRect>, lo: int, hi: int, perm: Seq<int>) -> bool {
    &&& after.len() == before.len()
    &&& perm.len() == before.len()
    &&& forall|p: int| lo <= p < hi ==> lo <= #[trigger] perm[p] < hi && rect_key(after[p]) == rect_key(before[perm[p]])
    &&& forall|p: int, q: int| lo <= p < hi && lo <= q < hi && p != q ==> #[trigger] perm[p] != #[trigger] perm[q]
    &&& forall|p: int| 0 <= p < after.len() && !(lo <= p < hi) ==> #[trigger] after[p] == before[p]
}

/// Every rectangle in `lo..hi` sits on one of the sheets `first..`, inside
/// it (the padding may reach past its edge), and overlaps no other rectangle
/// of that range on the same sheet.
pub open spec fn on_sheets(rects: Seq<SheetRect>, lo: int, hi: int, sheets: Seq<(i32, i32)>, first: int, pad: int) -> bool {
    &&& forall|p: int|
        lo <= p < hi ==> {
            let r = #[trigger] rects[p];
            &&& first <= r.data.1 < sheets.len()
            &&& within_bin(r, sheets[r.data.1 as int].0 + pad, sheets[r.data.1 as int].1 + pad)
        }
    &&& forall|p: int, q: int|
        lo <= p < hi && lo <= q < hi && p != q && (#[trigger] rects[p]).data.1 == (#[trigger] rects[q]).data.1
            ==> !rects_overlap(rects[p], rects[q])
}

/// The rectangles a sheet can be packed from: each at least one pixel on
/// each side, with an area that fits in `i32`.
pub open spec fn packable(rects: Seq<SheetRect>, lo: int, hi: int) -> bool {
    forall|p: int|
        lo <= p < hi ==> {
            let r = #[trigger] rects[p];
            1 <= r.w && 1 <= r.h && r.w * r.h <= i32::MAX
        }
}

/// The total area of the rectangles in `lo..hi`.
pub open spec fn total_area(rects: Seq<SheetRect>, lo: int, hi: int) -> int
    decreases hi - lo,
{
    if hi <= lo {
        0
    } else {
        total_area(rects, lo, hi - 1) + rects[hi - 1].w * rects[hi - 1].h
    }
}

pub open spec fn is_pow2(p: int) -> bool
    decreases p,
{
    if p <= 1 {
        p == 1
    } else {
        p % 2 == 0 && is_pow2(p / 2)
    }
}

/// The smallest `r` with `r * r >= a`, for `a < 2^52`.
fn ceil_sqrt(a: u64) -> (r: u64)
    requires
        a < 0x10_0000_0000_0000u64,
    ensures
        r <= 0x400_0000u64,
        r * r >= a,
        r == 0 || (r - 1) * (r - 1) < a,
{
    if a == 0 {
        return 0;
    }
    let mut lo: u64 = 0;
    let mut hi: u64 = 0x400_0000;
    assert(hi * hi == 0x10_0000_0000_0000u64) by (nonlinear_arith)
        requires
            hi == 0x400_0000u64,
    ;
    while hi - lo > 1
        invariant
            lo < hi <= 0x400_0000u64,
            lo * lo < a,
            hi * hi >= a,
            a < 0x10_0000_0000_0000u64,
        decreases hi - lo,
    {
        let mid: u64 = lo + (hi - lo) / 2;
        assert(mid * mid <= 0x10_0000_0000_0000u64) by (nonlinear_arith)
            requires
                mid <= 0x400_0000u64,
        ;
        if mid * mid < a {
            lo = mid;
        } else {
            hi = mid;
        }
    }
    assert(hi - 1 == lo);
    hi
}

/// The smallest power of two at least `n`.
fn next_power_of_two(n: u64) -> (p: u64)
    requires
        n <= 0x400_0000u64,
    ensures
        is_pow2(p as int),
        p >= n,
        p == 1 || p / 2 < n,
{
    let mut p: u64 = 1;
    assert(is_pow2(1));
    while p < n
        invariant
            is_pow2(p as int),
            n <= 0x400_0000u64,
            p == 1 || p / 2 < n,
            1 <= p,
            p < 2 * n || p == 1,
        decreases 2 * n - p,
    {
        proof {
            lemma_pow2_double(p as int);
        }
        p = p * 2;
    }
    p
}

proof fn lemma_pow2_double(p: int)
    requires
        is_pow2(p),
    ensures
        is_pow2(2 * p),
{
    assert((2 * p) / 2 == p);
    assert((2 * p) % 2 == 0);
}

/// The identity order.
pub open spec fn identity_perm(n: int) -> Seq<int> {
    Seq::new(n as nat, |p: int| p)
}

proof fn lemma_moved_identity(a: Seq<SheetRect>, b: Seq<SheetRect>, lo: int, hi: int)
    requires
        0 <= lo <= hi <= a.len(),
        a.len() == b.len(),
        forall|p: int| lo <= p < hi ==> rect_key(#[trigger] b[p]) == rect_key(a[p]),
        forall|p: int| 0 <= p < b.len() && !(lo <= p < hi) ==> #[trigger] b[p] == a[p],
    ensures
        moved_within(a, b, lo, hi, identity_perm(a.len() as int)),
{
}

/// Rearranging within `lo2..hi2` after rearranging within the wider
/// `lo..hi` is a rearrangement within `lo..hi`.
proof fn lemma_moved_compose(
    a: Seq<SheetRect>,
    b: Seq<SheetRect>,
    c: Seq<SheetRect>,
    lo: int,
    hi: int,
    lo2: int,
    hi2: int,
    pa: Seq<int>,
    pb: Seq<int>,
) -> (r: Seq<int>)
    requires
        0 <= lo <= lo2 <= hi2 <= hi <= a.len(),
        moved_within(a, b, lo, hi, pa),
        moved_within(b, c, lo2, hi2, pb),
    ensures
        moved_within(a, c, lo, hi, r),
{
    let r = Seq::new(a.len(), |p: int| if lo2 <= p < hi2 { pa[pb[p]] } else { pa[p] });
    assert forall|p: int| lo <= p < hi implies lo <= #[trigger] r[p] < hi && rect_key(c[p]) == rect_key(a[r[p]]) by {
        if lo2 <= p < hi2 {
            let q = pb[p];
            assert(lo2 <= q < hi2);
            assert(rect_key(b[q]) == rect_key(a[pa[q]]));
        } else {
            assert(c[p] == b[p]);
        }
    }
    assert forall|p: int, q: int| lo <= p < hi && lo <= q < hi && p != q implies #[trigger] r[p] != #[trigger] r[q] by {
        if lo2 <= p < hi2 && lo2 <= q < hi2 {
            assert(pb[p] != pb[q]);
            assert(pa[pb[p]] != pa[pb[q]]);
        } else if lo2 <= p < hi2 {
            assert(pb[p] != q);
            assert(pa[pb[p]] != pa[q]);
        } else if lo2 <= q < hi2 {
            assert(pb[q] != p);
            assert(pa[p] != pa[pb[q]]);
        } else {
            assert(pa[p] != pa[q]);
        }
    }
    assert forall|p: int| 0 <= p < c.len() && !(lo <= p < hi) implies #[trigger] c[p] == a[p] by {
        assert(c[p] == b[p]);
    }
    r
}

/// Packs the rectangles in `lo..hi` into a `width` x `height` bin (see
/// `pack_rects`): they are rearranged within their range, the placed ones
/// first. Returns how many were placed.
fn pack_range(rects: &mut Vec<SheetRect>, lo: usize, hi: usize, width: i32, height: i32) -> (packed: usize)
    requires
        lo <= hi <= old(rects)@.len(),
    ensures
        packed <= hi - lo,
        exists|perm: Seq<int>| moved_within(old(rects)@, final(rects)@, lo as int, hi as int, perm),
        placed_prefix(final(rects)@.subrange(lo as int, hi as int), packed as int, width as int, height as int),
        forall|j: int|
            lo + packed <= j < hi && proper(#[trigger] final(rects)@[j]) ==> !fits_beside(
                final(rects)@.subrange(lo as int, hi as int),
                packed as int,
                width as int,
                height as int,
                final(rects)@[j].w,
                final(rects)@[j].h,
            ),
{
    let ghost before = rects@;
    let mut tmp: Vec<SheetRect> = Vec::new();
    let mut k: usize = lo;
    while k < hi
        invariant
            lo <= k <= hi,
            hi <= rects@.len(),
            rects@ == before,
            tmp@ == before.subrange(lo as int, k as int),
        decreases hi - k,
    {
        tmp.push(rects[k]);
        proof {
            assert(tmp@ =~= before.subrange(lo as int, k as int + 1));
        }
        k = k + 1;
    }
    let ghost t0 = tmp@;
    let packed = pack_rects(width, height, tmp.as_mut_slice());
    let ghost t1 = tmp@;
    let n: usize = tmp.len();
    let mut j: usize = 0;
    while j < n
        invariant
            n == tmp@.len(),
            n == hi - lo,
            j <= n,
            hi <= rects@.len(),
            rects@.len() == before.len(),
            tmp@ == t1,
            forall|p: int| lo <= p < lo + j ==> #[trigger] rects@[p] == t1[p - lo],
            forall|p: int| 0 <= p < rects@.len() && !(lo <= p < lo + j) ==> #[trigger] rects@[p] == before[p],
        decreases n - j,
    {
        rects.set(lo + j, tmp[j]);
        j = j + 1;
    }
    proof {
        let tperm = choose|perm: Seq<int>| rearranged(t0, t1, perm, packed as int);
        let perm = Seq::new(
            before.len(),
            |p: int| if lo <= p < hi { lo + tperm[p - lo] } else { p },
        );
        assert forall|p: int| lo <= p < hi implies lo <= #[trigger] perm[p] < hi && rect_key(rects@[p]) == rect_key(
            before[perm[p]],
        ) by {
            assert(0 <= tperm[p - lo] < n);
            assert(same_size_and_data(t1[p - lo], t0[tperm[p - lo]]));
            assert(t0[tperm[p - lo]] == before[lo + tperm[p - lo]]);
        }
        assert forall|p: int, q: int| lo <= p < hi && lo <= q < hi && p != q implies #[trigger] perm[p]
            != #[trigger] perm[q] by {
            assert(tperm[p - lo] != tperm[q - lo]);
        }
        assert(moved_within(before, rects@, lo as int, hi as int, perm));
        assert(rects@.subrange(lo as int, hi as int) =~= t1);
        assert forall|jj: int| lo + packed <= jj < hi && proper(#[trigger] rects@[jj]) implies !fits_beside(
            rects@.subrange(lo as int, hi as int),
            packed as int,
            width as int,
            height as int,
            rects@[jj].w,
            rects@[jj].h,
        ) by {
            assert(rects@[jj] == t1[jj - lo]);
        }
    }
    packed
}

proof fn lemma_area_bound(rects: Seq<SheetRect>, lo: int, hi: int)
    requires
        0 <= lo <= hi <= rects.len(),
        packable(rects, lo, hi),
    ensures
        (hi - lo) <= total_area(rects, lo, hi) <= (hi - lo) * 0x7fff_ffff,
    decreases hi - lo,
{
    if lo < hi {
        lemma_area_bound(rects, lo, hi - 1);
        let r = rects[hi - 1];
        assert(1 <= r.w * r.h) by (nonlinear_arith)
            requires
                1 <= r.w,
                1 <= r.h,
        ;
    }
}

proof fn lemma_packable_moved(a: Seq<SheetRect>, b: Seq<SheetRect>, lo: int, hi: int, perm: Seq<int>, lo2: int, hi2: int)
    requires
        0 <= lo <= lo2 <= hi2 <= hi <= a.len(),
        packable(a, lo, hi),
        moved_within(a, b, lo, hi, perm),
    ensures
        packable(b, lo2, hi2),
{
    assert forall|p: int| lo2 <= p < hi2 implies {
        let r = #[trigger] b[p];
        1 <= r.w && 1 <= r.h && r.w * r.h <= i32::MAX
    } by {
        assert(rect_key(b[p]) == rect_key(a[perm[p]]));
        let q = perm[p];
        assert(lo <= q < hi);
        let r = a[q];
        assert(1 <= r.w && 1 <= r.h && r.w * r.h <= i32::MAX);
    }
}

/// The sheet size after `t` growth steps from a square of side `s`: each
/// step doubles the narrower side (the width when both are equal).
pub open spec fn grown(s: int, t: nat) -> (int, int)
    decreases t,
{
    if t == 0 {
        (s, s)
    } else {
        let (w, h) = grown(s, (t - 1) as nat);
        if w <= h {
            (2 * w, h)
        } else {
            (w, 2 * h)
        }
    }
}

/// `s` is the side of the smallest power-of-two square that holds `area`.
pub open spec fn initial_side(s: int, area: int) -> bool {
    &&& is_pow2(s)
    &&& s * s >= area
    &&& (s == 1 || (s / 2) * (s / 2) < area)
}

/// `a` rearranges the sprites of `r0` in `lo..hi`, its first `k` of them are
/// packed in a `width` x `height` bin, and one of the others fits nowhere
/// beside them: packing stopped there.
pub open spec fn stuck_arrangement(
    r0: Seq<SheetRect>,
    a: Seq<SheetRect>,
    perm: Seq<int>,
    k: int,
    lo: int,
    hi: int,
    width: int,
    height: int,
) -> bool {
    &&& moved_within(r0, a, lo, hi, perm)
    &&& 0 <= k < hi - lo
    &&& placed_prefix(a.subrange(lo, hi), k, width, height)
    &&& exists|j: int|
        lo + k <= j < hi && !fits_beside(a.subrange(lo, hi), k, width, height, (#[trigger] a[j]).w, a[j].h)
}

/// Packing the sprites of `r0` in `lo..hi` into a `width` x `height` bin
/// stopped before placing all of them.
pub open spec fn fails_at(r0: Seq<SheetRect>, lo: int, hi: int, width: int, height: int) -> bool {
    exists|a: Seq<SheetRect>, perm: Seq<int>, k: int| #[trigger] stuck_arrangement(r0, a, perm, k, lo, hi, width, height)
}

/// Packing failed at each of the first `m` sizes grown from side `s`.
pub open spec fn failed_growing(r0: Seq<SheetRect>, lo: int, hi: int, s: int, m: nat, pad: int) -> bool {
    forall|t: nat| t < m ==> fails_at(r0, lo, hi, (#[trigger] grown(s, t)).0 + pad, grown(s, t).1 + pad)
}

proof fn lemma_grown_grows(s: int, t1: nat, t2: nat)
    requires
        s >= 1,
        t1 <= t2,
    ensures
        grown(s, t1).0 <= grown(s, t2).0,
        grown(s, t1).1 <= grown(s, t2).1,
        grown(s, t2).0 >= 1,
        grown(s, t2).1 >= 1,
    decreases t2,
{
    if t2 > 0 {
        if t1 < t2 {
            lemma_grown_grows(s, t1, (t2 - 1) as nat);
        } else {
            lemma_grown_grows(s, 0, (t2 - 1) as nat);
        }
    }
}

/// How the sprites in `lo..hi` of `r0` are put on sheets, from `before` to
/// `after`: a single sprite on a sheet of its own size at the corner;
/// several on one sheet of the first size, grown from the smallest
/// power-of-two square that holds their area, at which packing places them
/// all; or, when packing fails at every grown size up to `max_size`, split
/// in two.
pub open spec fn sheets_rule(
    r0: Seq<SheetRect>,
    lo: int,
    hi: int,
    before: Seq<(i32, i32)>,
    after: Seq<(i32, i32)>,
    rects: Seq<SheetRect>,
    pad: int,
    max_size: int,
) -> bool {
    &&& hi - lo == 1 ==> {
        &&& after == before.push(((r0[lo].w - pad) as i32, (r0[lo].h - pad) as i32))
        &&& rects[lo].x == 0
        &&& rects[lo].y == 0
    }
    &&& hi - lo > 1 ==> exists|s: int|
        #[trigger] initial_side(s, total_area(r0, lo, hi)) && ((exists|m: nat|
            #[trigger] failed_growing(r0, lo, hi, s, m, pad) && grown(s, m).0 <= max_size && grown(s, m).1
                <= max_size && is_pow2(grown(s, m).0) && is_pow2(grown(s, m).1) && after == before.push(
                (grown(s, m).0 as i32, grown(s, m).1 as i32),
            )) || (forall|t: nat|
            grown(s, t).0 <= max_size && grown(s, t).1 <= max_size ==> fails_at(
                r0,
                lo,
                hi,
                (#[trigger] grown(s, t)).0 + pad,
                grown(s, t).1 + pad,
            )))
}

/// Packs the sprites in `lo..hi` onto new sheets of at most `max_size`
/// pixels a side: a single sprite gets a sheet of its own size; several get
/// the smallest square power-of-two sheet that holds their area, grown side
/// by side (the narrower first) until they all fit; where no sheet up to
/// the limit holds them, they are halved by area (in their present order)
/// and each half is packed on its own. Every sprite ends on one of the new
/// sheets, inside it, overlapping no other sprite of that sheet.
pub fn pack_recursive(
    rects: &mut Vec<SheetRect>,
    lo: usize,
    hi: usize,
    sheets: &mut Vec<(i32, i32)>,
    pad: i32,
    max_size: i32,
)
    requires
        lo <= hi <= old(rects)@.len(),
        hi - lo <= 0x20_0000,
        packable(old(rects)@, lo as int, hi as int),
        0 <= pad < 0x4000_0000,
        max_size < 0x4000_0000,
    ensures
        exists|perm: Seq<int>| moved_within(old(rects)@, final(rects)@, lo as int, hi as int, perm),
        final(sheets)@.len() >= old(sheets)@.len(),
        final(sheets)@.subrange(0, old(sheets)@.len() as int) == old(sheets)@,
        on_sheets(final(rects)@, lo as int, hi as int, final(sheets)@, old(sheets)@.len() as int, pad as int),
        sheets_rule(old(rects)@, lo as int, hi as int, old(sheets)@, final(sheets)@, final(rects)@, pad as int, max_size as int),
    decreases hi - lo,
{
    let ghost r0 = rects@;
    let ghost s0 = sheets@;
    if hi - lo == 1 {
        let mut r = rects[lo];
        r.x = 0;
        r.y = 0;
        r.data.1 = sheets.len();
        rects.set(lo, r);
        sheets.push((r.w - pad, r.h - pad));
        proof {
            lemma_moved_identity(r0, rects@, lo as int, hi as int);
            assert(sheets@.subrange(0, s0.len() as int) =~= s0);
        }
    } else if hi - lo > 1 {
        proof {
            lemma_area_bound(r0, lo as int, hi as int);
        }
        let mut area: u64 = 0;
        let mut k: usize = lo;
        while k < hi
            invariant
                lo <= k <= hi,
                hi <= rects@.len(),
                rects@ == r0,
                packable(r0, lo as int, hi as int),
                hi - lo <= 0x20_0000,
                area == total_area(r0, lo as int, k as int),
                total_area(r0, lo as int, k as int) <= (k - lo) * 0x7fff_ffff,
            decreases hi - k,
        {
            proof {
                lemma_area_bound(r0, lo as int, k as int + 1);
            }
            let r = rects[k];
            area = area + (r.w * r.h) as u64;
            k = k + 1;
        }
        assert(area < 0x10_0000_0000_0000u64) by (nonlinear_arith)
            requires
                area <= (hi - lo) * 0x7fff_ffff,
                hi - lo <= 0x20_0000,
        ;
        let root: u64 = ceil_sqrt(area);
        let side: u64 = next_power_of_two(root);
        assert(side < 0x800_0000u64);
        proof {
            assert(side * side >= area) by (nonlinear_arith)
                requires
                    side >= root,
                    root * root >= area,
            ;
            if side != 1 {
                assert((side / 2) * (side / 2) < area) by (nonlinear_arith)
                    requires
                        side / 2 < root,
                        root == 0 || (root - 1) * (root - 1) < area,
                ;
            }
            assert(initial_side(side as int, total_area(r0, lo as int, hi as int)));
        }
        let mut w: i32 = side as i32;
        let mut h: i32 = w;
        let ghost mut attempts: nat = 0;
        let ghost mut perm: Seq<int> = identity_perm(r0.len() as int);
        proof {
            lemma_moved_identity(r0, rects@, lo as int, hi as int);
        }
        let mut packed_all: bool = false;
        loop
            invariant_except_break
                !packed_all,
            invariant
                lo <= hi <= rects@.len(),
                hi - lo > 1,
                1 <= w,
                1 <= h,
                0 <= pad < 0x4000_0000,
                max_size < 0x4000_0000,
                w < 0x8000_0000 - 0x4000_0000 || w > max_size,
                h < 0x8000_0000 - 0x4000_0000 || h > max_size,
                moved_within(r0, rects@, lo as int, hi as int, perm),
                packable(r0, lo as int, hi as int),
                side >= 1,
                (w as int, h as int) == grown(side as int, attempts),
                is_pow2(w as int),
                is_pow2(h as int),
                failed_growing(r0, lo as int, hi as int, side as int, attempts, pad as int),
            ensures
                packed_all ==> w <= max_size && h <= max_size,
                packed_all ==> placed_prefix(rects@.subrange(lo as int, hi as int), (hi - lo) as int, (w + pad) as int, (h + pad) as int),
                packed_all || w > max_size || h > max_size,
            decreases (0x8000_0000 - w) + (0x8000_0000 - h),
        {
            if !(w <= max_size && h <= max_size) {
                break;
            }
            let ghost before = rects@;
            let n = pack_range(rects, lo, hi, w + pad, h + pad);
            proof {
                let p2 = choose|p2: Seq<int>| moved_within(before, rects@, lo as int, hi as int, p2);
                perm = lemma_moved_compose(r0, before, rects@, lo as int, hi as int, lo as int, hi as int, perm, p2);
            }
            if n == hi - lo {
                packed_all = true;
                break;
            }
            proof {
                let a = rects@;
                lemma_packable_moved(r0, a, lo as int, hi as int, perm, lo as int, hi as int);
                let j = lo + n;
                assert(proper(a[j as int]));
                assert(stuck_arrangement(r0, a, perm, n as int, lo as int, hi as int, (w + pad) as int, (h + pad) as int));
                assert forall|t: nat| t < attempts + 1 implies fails_at(
                    r0,
                    lo as int,
                    hi as int,
                    (#[trigger] grown(side as int, t)).0 + pad,
                    grown(side as int, t).1 + pad,
                ) by {
                    if t == attempts {
                        assert(grown(side as int, t) == (w as int, h as int));
                    }
                }
                lemma_pow2_double(w as int);
                lemma_pow2_double(h as int);
            }
            if w <= h {
                w = w * 2;
            } else {
                h = h * 2;
            }
            proof {
                attempts = attempts + 1;
            }
        }
        if packed_all {
            let ghost placed = rects@;
            let sheet: usize = sheets.len();
            let mut k: usize = lo;
            while k < hi
                invariant
                    lo <= k <= hi,
                    hi <= rects@.len(),
                    rects@.len() == placed.len(),
                    sheet == sheets@.len(),
                    forall|p: int| lo <= p < k ==> {
                        let r = #[trigger] rects@[p];
                        let q = placed[p];
                        r.x == q.x && r.y == q.y && r.w == q.w && r.h == q.h && r.data == (q.data.0, sheet)
                    },
                    forall|p: int| 0 <= p < rects@.len() && !(lo <= p < k) ==> #[trigger] rects@[p] == placed[p],
                decreases hi - k,
            {
                let mut r = rects[k];
                r.data.1 = sheet;
                rects.set(k, r);
                k = k + 1;
            }
            sheets.push((w, h));
            proof {
                let m = attempts;
                assert(failed_growing(r0, lo as int, hi as int, side as int, m, pad as int)
                    && grown(side as int, m).0 <= max_size && grown(side as int, m).1 <= max_size && is_pow2(
                    grown(side as int, m).0,
                ) && is_pow2(grown(side as int, m).1) && sheets@ == s0.push(
                    (grown(side as int, m).0 as i32, grown(side as int, m).1 as i32),
                ));
                assert(initial_side(side as int, total_area(r0, lo as int, hi as int)));
                let sub = placed.subrange(lo as int, hi as int);
                assert(sheets@.subrange(0, s0.len() as int) =~= s0);
                assert forall|p: int| lo <= p < hi implies rect_key(#[trigger] rects@[p]) == rect_key(r0[perm[p]]) by {
                    assert(rect_key(placed[p]) == rect_key(r0[perm[p]]));
                }
                assert(moved_within(r0, rects@, lo as int, hi as int, perm));
                assert forall|p: int| lo <= p < hi implies {
                    let r = #[trigger] rects@[p];
                    &&& s0.len() <= r.data.1 < sheets@.len()
                    &&& within_bin(r, sheets@[r.data.1 as int].0 + pad, sheets@[r.data.1 as int].1 + pad)
                } by {
                    assert(sub[p - lo] == placed[p]);
                    assert(within_bin(sub[p - lo], (w + pad) as int, (h + pad) as int));
                }
                assert forall|p: int, q: int|
                    lo <= p < hi && lo <= q < hi && p != q && (#[trigger] rects@[p]).data.1 == (#[trigger] rects@[q]).data.1
                        implies !rects_overlap(rects@[p], rects@[q]) by {
                    assert(sub[p - lo] == placed[p]);
                    assert(sub[q - lo] == placed[q]);
                    assert(!rects_overlap(sub[p - lo], sub[q - lo]));
                }
            }
        } else {
            let ghost r1 = rects@;
            let half: u64 = area / 2;
            let mut i: usize = 0;
            let mut a: u64 = 0;
            proof {
                lemma_packable_moved(r0, r1, lo as int, hi as int, perm, lo as int, hi as int);
                lemma_area_bound(r1, lo as int, hi as int);
            }
            while a < half && i < hi - lo - 1
                invariant
                    lo <= hi <= rects@.len(),
                    rects@ == r1,
                    packable(r1, lo as int, hi as int),
                    hi - lo <= 0x20_0000,
                    i <= hi - lo - 1,
                    a == total_area(r1, lo as int, lo + i),
                    total_area(r1, lo as int, lo + i) <= i * 0x7fff_ffff,
                decreases hi - lo - i,
            {
                proof {
                    lemma_area_bound(r1, lo as int, lo + i + 1);
                }
                let r = rects[lo + i];
                a = a + (r.w * r.h) as u64;
                i = i + 1;
            }
            proof {
                // the area is at least one per sprite, so the first half is never empty
                lemma_area_bound(r0, lo as int, hi as int);
                assert(half >= 1);
                assert(i >= 1);
            }
            let mid: usize = lo + i;
            pack_recursive(rects, lo, mid, sheets, pad, max_size);
            let ghost r2 = rects@;
            let ghost s1 = sheets@;
            proof {
                let p1 = choose|p1: Seq<int>| moved_within(r1, r2, lo as int, mid as int, p1);
                perm = lemma_moved_compose(r0, r1, r2, lo as int, hi as int, lo as int, mid as int, perm, p1);
                lemma_packable_moved(r0, r2, lo as int, hi as int, perm, mid as int, hi as int);
            }
            pack_recursive(rects, mid, hi, sheets, pad, max_size);
            proof {
                assert forall|t: nat|
                    grown(side as int, t).0 <= max_size && grown(side as int, t).1 <= max_size implies fails_at(
                    r0,
                    lo as int,
                    hi as int,
                    (#[trigger] grown(side as int, t)).0 + pad,
                    grown(side as int, t).1 + pad,
                ) by {
                    if t >= attempts {
                        lemma_grown_grows(side as int, attempts, t);
                    }
                }
                assert(initial_side(side as int, total_area(r0, lo as int, hi as int)));
                let p2 = choose|p2: Seq<int>| moved_within(r2, rects@, mid as int, hi as int, p2);
                perm = lemma_moved_compose(r0, r2, rects@, lo as int, hi as int, mid as int, hi as int, perm, p2);
                assert(sheets@.subrange(0, s0.len() as int) =~= s0) by {
                    assert(sheets@.subrange(0, s1.len() as int) == s1);
                    assert(s1.subrange(0, s0.len() as int) == s0);
                }
                assert forall|p: int| lo <= p < hi implies {
                    let r = #[trigger] rects@[p];
                    &&& s0.len() <= r.data.1 < sheets@.len()
                    &&& within_bin(r, sheets@[r.data.1 as int].0 + pad, sheets@[r.data.1 as int].1 + pad)
                } by {
                    if p < mid {
                        assert(rects@[p] == r2[p]);
                        let d = r2[p].data.1 as int;
                        assert(s0.len() <= d < s1.len());
                        assert(sheets@.subrange(0, s1.len() as int)[d] == s1[d]);
                    }
                }
                assert forall|p: int, q: int|
                    lo <= p < hi && lo <= q < hi && p != q && (#[trigger] rects@[p]).data.1 == (#[trigger] rects@[q]).data.1
                        implies !rects_overlap(rects@[p], rects@[q]) by {
                    if p < mid && q < mid {
                        assert(rects@[p] == r2[p]);
                        assert(rects@[q] == r2[q]);
                    } else if p < mid {
                        assert(rects@[p] == r2[p]);
                        assert(r2[p].data.1 < s1.len());
                    } else if q < mid {
                        assert(rects@[q] == r2[q]);
                        assert(r2[q].data.1 < s1.len());
                    }
                }
            }
        }
    } else {
        proof {
            lemma_moved_identity(r0, rects@, lo as int, hi as int);
            assert(sheets@.subrange(0, s0.len() as int) =~= s0);
        }
    }
}

/// The rectangle a sprite of `width` x `height` pixels takes before packing:
/// each side capped at `max_size` (the image is scaled down to it) and
/// padded, at the origin, carrying the sprite's position.
pub open spec fn sprite_rect(i: int, width: u32, height: u32, padding: i32, max_size: i32) -> SheetRect {
    Rect {
        x: 0,
        y: 0,
        w: (if width as int <= max_size { width as int } else { max_size as int } + padding) as i32,
        h: (if height as int <= max_size { height as int } else { max_size as int } + padding) as i32,
        data: (i as usize, 0usize),
    }
}

/// The rectangles of sprites of the given sizes, in order.
pub open spec fn initial_rects(sizes: Seq<(u32, u32)>, padding: i32, max_size: i32) -> Seq<SheetRect> {
    Seq::new(sizes.len(), |i: int| sprite_rect(i, sizes[i].0, sizes[i].1, padding, max_size))
}

/// Lays out sprites of the given pixel sizes on sheets of at most
/// `max_size` pixels a side with `padding` pixels between them (see
/// `pack_recursive`): returns each sprite's rectangle (in packing order,
/// carrying the sprite's position and its sheet) and the sheets' sizes.
pub fn layout_sprites(sizes: &Vec<(u32, u32)>, padding: i32, max_size: i32) -> (r: (Vec<SheetRect>, Vec<(i32, i32)>))
    requires
        sizes@.len() <= 0x20_0000,
        1 <= max_size < 0x4000_0000,
        0 <= padding < 0x4000_0000,
        forall|i: int|
            0 <= i < sizes@.len() ==> {
                let (w, h) = #[trigger] sizes@[i];
                &&& 1 <= w
                &&& 1 <= h
                &&& (if w as int <= max_size { w as int } else { max_size as int } + padding) * (if h as int
                    <= max_size {
                    h as int
                } else {
                    max_size as int
                } + padding) <= i32::MAX
            },
    ensures
        exists|perm: Seq<int>|
            #[trigger] moved_within(initial_rects(sizes@, padding, max_size), r.0@, 0, sizes@.len() as int, perm),
        on_sheets(r.0@, 0, sizes@.len() as int, r.1@, 0, padding as int),
        sheets_rule(
            initial_rects(sizes@, padding, max_size),
            0,
            sizes@.len() as int,
            Seq::empty(),
            r.1@,
            r.0@,
            padding as int,
            max_size as int,
        ),
{
    let ghost init = initial_rects(sizes@, padding, max_size);
    let mut rects: Vec<SheetRect> = Vec::new();
    let mut i: usize = 0;
    while i < sizes.len()
        invariant
            i <= sizes@.len(),
            1 <= max_size < 0x4000_0000,
            0 <= padding < 0x4000_0000,
            init == initial_rects(sizes@, padding, max_size),
            rects@ == init.subrange(0, i as int),
        decreases sizes@.len() - i,
    {
        let (w, h) = sizes[i];
        let cw: i32 = if w <= max_size as u32 {
            w as i32
        } else {
            max_size
        };
        let ch: i32 = if h <= max_size as u32 {
            h as i32
        } else {
            max_size
        };
        rects.push(Rect { x: 0, y: 0, w: cw + padding, h: ch + padding, data: (i, 0) });
        proof {
            assert(rects@ =~= init.subrange(0, i as int + 1));
        }
        i = i + 1;
    }
    proof {
        assert(rects@ =~= init);
        assert forall|p: int| 0 <= p < sizes@.len() implies {
            let r = #[trigger] init[p];
            1 <= r.w && 1 <= r.h && r.w * r.h <= i32::MAX
        } by {
            let (w, h) = sizes@[p];
            assert(1 <= w && 1 <= h);
        }
    }
    let mut sheets: Vec<(i32, i32)> = Vec::new();
    let n: usize = rects.len();
    pack_recursive(&mut rects, 0, n, &mut sheets, padding, max_size);
    proof {
        let p = choose|p: Seq<int>| moved_within(init, rects@, 0, n as int, p);
        assert(moved_within(initial_rects(sizes@, padding, max_size), rects@, 0, sizes@.len() as int, p));
    }
    let r = (rects, sheets);
    assert(r.0@ == rects@);
    assert(exists|perm: Seq<int>|
        #[trigger] moved_within(initial_rects(sizes@, padding, max_size), r.0@, 0, sizes@.len() as int, perm));
    r
}

} // verus!
