use vstd::prelude::*;
use crate::geometry::{
    Vec3, TRIG_ONE, ANGLE_FULL, sin_spec, cos_spec, clamp_coord_spec, clamp_coord, div_floor,
    isqrt, sin_approx, cos_approx,
};
use crate::model::{HOVER_HEIGHT, MAX_TRAILER_LEN};

verus! {

/// Distance from the back of a player to its hitch point.
pub const PLAYER_BACK_OFFSET: i64 = 900;

/// Distance from a cart's centre to its rear hitch point.
pub const CART_BACK_OFFSET: i64 = 700;

/// Distance from a hitch point to the centre of the cart it pulls (gap plus cart front).
pub const HITCH_LENGTH: i64 = 1500;

/// Trailer length after one tick: one more after a pickup (up to the capacity); otherwise
/// one step toward the initial length, never more than one cart of change.
pub open spec fn target_trailer_len(cur: int, grew: bool, init: int) -> int {
    if grew {
        if cur < MAX_TRAILER_LEN { cur + 1 } else { cur }
    } else if cur > init {
        cur - 1
    } else if cur < init {
        cur + 1
    } else {
        cur
    }
}

/// `r` is the integer square root of `n`.
pub open spec fn is_isqrt(n: int, r: int) -> bool {
    0 <= r && r * r <= n < (r + 1) * (r + 1)
}

/// Integer square root, as a specification.
pub open spec fn isqrt_spec(n: int) -> int {
    choose|r: int| #[trigger] is_isqrt(n, r)
}

proof fn lemma_isqrt_unique(n: int, r: int)
    requires
        0 <= r,
        r * r <= n < (r + 1) * (r + 1),
    ensures
        isqrt_spec(n) == r,
{
    assert(is_isqrt(n, r));
    let s = isqrt_spec(n);
    assert(is_isqrt(n, s));
    assert(0 <= s && s * s <= n < (s + 1) * (s + 1));
    if s < r {
        assert((s + 1) * (s + 1) <= r * r) by (nonlinear_arith)
            requires 0 <= s, s + 1 <= r;
    } else if r < s {
        assert((r + 1) * (r + 1) <= s * s) by (nonlinear_arith)
            requires 0 <= r, r + 1 <= s;
    }
}

/// A position `back` behind `anchor` along the direction `fwd` (scale `TRIG_ONE`), at hover height.
pub open spec fn behind(anchor: Vec3, fwd: Vec3, back: int) -> (int, int) {
    (
        anchor.x - (fwd.x * back) / (TRIG_ONE as int),
        anchor.z - (fwd.z * back) / (TRIG_ONE as int),
    )
}

/// Where one cart goes, and the direction it faces, given its anchor (the player or the
/// cart ahead), the anchor's facing, the anchor's back offset and the cart's previous
/// position if it had one. The cart hangs `HITCH_LENGTH` from the hitch point, on the line
/// from its previous position to the hitch; without a previous position, or one within
/// 0.001 of the hitch, it is placed straight behind the anchor.
pub open spec fn place_cart(anchor: Vec3, fwd: Vec3, back: int, prev: Option<Vec3>) -> (Vec3, Vec3) {
    let (hx, hz) = behind(anchor, fwd, back);
    let fallback = (
        Vec3 {
            x: clamp_coord_spec(hx - (fwd.x * HITCH_LENGTH) / (TRIG_ONE as int)) as i64,
            y: HOVER_HEIGHT,
            z: clamp_coord_spec(hz - (fwd.z * HITCH_LENGTH) / (TRIG_ONE as int)) as i64,
        },
        fwd,
    );
    match prev {
        None => fallback,
        Some(o) => {
            let dx = hx - o.x;
            let dz = hz - o.z;
            let dsq = dx * dx + dz * dz;
            if dsq > 1 {
                let dist = isqrt_spec(dsq);
                let dir = Vec3 {
                    x: ((dx * TRIG_ONE) / dist) as i64,
                    y: 0,
                    z: ((dz * TRIG_ONE) / dist) as i64,
                };
                (
                    Vec3 {
                        x: clamp_coord_spec(hx - (dir.x * HITCH_LENGTH) / (TRIG_ONE as int)) as i64,
                        y: HOVER_HEIGHT,
                        z: clamp_coord_spec(hz - (dir.z * HITCH_LENGTH) / (TRIG_ONE as int)) as i64,
                    },
                    dir,
                )
            } else {
                fallback
            }
        },
    }
}

/// The suffix of `s` from index `k`, empty when `k` is past the end.
pub open spec fn rest(s: Seq<Vec3>, k: int) -> Seq<Vec3> {
    if k <= s.len() {
        s.subrange(k, s.len() as int)
    } else {
        Seq::empty()
    }
}

/// Positions of `n` carts chained behind `anchor`; `olds` are their previous positions,
/// nearest first (it may be shorter than `n`).
pub open spec fn chain(anchor: Vec3, fwd: Vec3, first: bool, olds: Seq<Vec3>, n: nat) -> Seq<Vec3>
    decreases n,
{
    if n == 0 {
        Seq::empty()
    } else {
        let prev = if olds.len() > 0 { Some(olds[0]) } else { None };
        let back = if first { PLAYER_BACK_OFFSET } else { CART_BACK_OFFSET };
        let (c, f) = place_cart(anchor, fwd, back as int, prev);
        seq![c] + chain(c, f, false, rest(olds, 1), (n - 1) as nat)
    }
}

/// A direction whose components lie in `[-TRIG_ONE, TRIG_ONE]`.
pub open spec fn unit_bounded(f: Vec3) -> bool {
    -TRIG_ONE <= f.x <= TRIG_ONE && -TRIG_ONE <= f.z <= TRIG_ONE
}

/// Computes one cart of the chain; see `place_cart`.
pub fn place_cart_exec(anchor: Vec3, fwd: Vec3, back: i64, prev: Option<Vec3>) -> (r: (Vec3, Vec3))
    requires
        anchor.wf(),
        unit_bounded(fwd),
        0 <= back <= 1000,
        prev matches Some(o) ==> o.wf(),
    ensures
        r == place_cart(anchor, fwd, back as int, prev),
        r.0.wf(),
        unit_bounded(r.1),
{
    assert(-1_000_000_000 <= fwd.x * back <= 1_000_000_000) by (nonlinear_arith)
        requires -1_000_000 <= fwd.x <= 1_000_000, 0 <= back <= 1000;
    assert(-1_000_000_000 <= fwd.z * back <= 1_000_000_000) by (nonlinear_arith)
        requires -1_000_000 <= fwd.z <= 1_000_000, 0 <= back <= 1000;
    let ox = div_floor(fwd.x as i128 * back as i128, TRIG_ONE as i128);
    let oz = div_floor(fwd.z as i128 * back as i128, TRIG_ONE as i128);
    proof {
        vstd::arithmetic::div_mod::lemma_div_is_ordered(fwd.x * back, 1_000_000_000, 1_000_000);
        vstd::arithmetic::div_mod::lemma_div_is_ordered(-1_000_000_000, fwd.x * back, 1_000_000);
        vstd::arithmetic::div_mod::lemma_div_is_ordered(fwd.z * back, 1_000_000_000, 1_000_000);
        vstd::arithmetic::div_mod::lemma_div_is_ordered(-1_000_000_000, fwd.z * back, 1_000_000);
    }
    let hx: i128 = anchor.x as i128 - ox;
    let hz: i128 = anchor.z as i128 - oz;
    let mut dir = fwd;
    let mut use_dir = false;
    match prev {
        None => {},
        Some(o) => {
            let dx: i128 = hx - o.x as i128;
            let dz: i128 = hz - o.z as i128;
            assert(0 <= dx * dx <= 4_000_000_004_000_000_000_001_000_000) by (nonlinear_arith)
                requires -2_000_000_001_000 <= dx <= 2_000_000_001_000;
            assert(0 <= dz * dz <= 4_000_000_004_000_000_000_001_000_000) by (nonlinear_arith)
                requires -2_000_000_001_000 <= dz <= 2_000_000_001_000;
            let dsq: i128 = dx * dx + dz * dz;
            if dsq > 1 {
                let dist: i128 = isqrt(dsq as u128) as i128;
                proof {
                    lemma_isqrt_unique(dsq as int, dist as int);
                    assert(1 <= dist) by (nonlinear_arith)
                        requires dsq < (dist + 1) * (dist + 1), dsq > 1, 0 <= dist;
                    assert(-dist <= dx <= dist) by (nonlinear_arith)
                        requires dsq == dx * dx + dz * dz, dsq < (dist + 1) * (dist + 1), 0 <= dist, 0 <= dz * dz;
                    assert(-dist <= dz <= dist) by (nonlinear_arith)
                        requires dsq == dx * dx + dz * dz, dsq < (dist + 1) * (dist + 1), 0 <= dist, 0 <= dx * dx;
                    assert(-dist * 1_000_000 <= dx * 1_000_000 <= dist * 1_000_000) by (nonlinear_arith)
                        requires -dist <= dx <= dist;
                    assert(-dist * 1_000_000 <= dz * 1_000_000 <= dist * 1_000_000) by (nonlinear_arith)
                        requires -dist <= dz <= dist;
                    vstd::arithmetic::div_mod::lemma_div_is_ordered(dx * 1_000_000, dist * 1_000_000, dist as int);
                    vstd::arithmetic::div_mod::lemma_div_is_ordered(-dist * 1_000_000, dx * 1_000_000, dist as int);
                    vstd::arithmetic::div_mod::lemma_div_is_ordered(dz * 1_000_000, dist * 1_000_000, dist as int);
                    vstd::arithmetic::div_mod::lemma_div_is_ordered(-dist * 1_000_000, dz * 1_000_000, dist as int);
                    vstd::arithmetic::div_mod::lemma_div_by_multiple(1_000_000, dist as int);
                    vstd::arithmetic::div_mod::lemma_fundamental_div_mod_converse((-1_000_000) * dist, dist as int, -1_000_000, 0);
                    assert(dist * 1_000_000 == 1_000_000 * dist);
                    assert(-dist * 1_000_000 == (-1_000_000) * dist);
                }
                let qx = div_floor(dx * TRIG_ONE as i128, dist);
                let qz = div_floor(dz * TRIG_ONE as i128, dist);
                dir = Vec3 { x: qx as i64, y: 0, z: qz as i64 };
                use_dir = true;
            }
        },
    }
    assert(-1_500_000_000 <= dir.x * HITCH_LENGTH <= 1_500_000_000) by (nonlinear_arith)
        requires -1_000_000 <= dir.x <= 1_000_000;
    assert(-1_500_000_000 <= dir.z * HITCH_LENGTH <= 1_500_000_000) by (nonlinear_arith)
        requires -1_000_000 <= dir.z <= 1_000_000;
    let cx = div_floor(dir.x as i128 * HITCH_LENGTH as i128, TRIG_ONE as i128);
    let cz = div_floor(dir.z as i128 * HITCH_LENGTH as i128, TRIG_ONE as i128);
    proof {
        vstd::arithmetic::div_mod::lemma_div_is_ordered(dir.x * HITCH_LENGTH, 1_500_000_000, 1_000_000);
        vstd::arithmetic::div_mod::lemma_div_is_ordered(-1_500_000_000, dir.x * HITCH_LENGTH, 1_000_000);
        vstd::arithmetic::div_mod::lemma_div_is_ordered(dir.z * HITCH_LENGTH, 1_500_000_000, 1_000_000);
        vstd::arithmetic::div_mod::lemma_div_is_ordered(-1_500_000_000, dir.z * HITCH_LENGTH, 1_000_000);
    }
    let cart = Vec3 { x: clamp_coord(hx - cx), y: HOVER_HEIGHT, z: clamp_coord(hz - cz) };
    (cart, dir)
}

/// Facing direction of a yaw, scale `TRIG_ONE`.
pub open spec fn forward_spec(yaw: int) -> Vec3 {
    Vec3 { x: sin_spec(yaw) as i64, y: 0, z: cos_spec(yaw) as i64 }
}

/// The trailer of `len` entries rebuilt for a player at `pos` facing `yaw`, from the
/// previous trailer `old` (whose entry 0 was the player's former position).
pub open spec fn trailer_spec(pos: Vec3, yaw: int, old: Seq<Vec3>, len: int) -> Seq<Vec3> {
    seq![pos] + chain(pos, forward_spec(yaw), true, rest(old, 1), (len - 1) as nat)
}

/// Length of a chain.
pub proof fn lemma_chain_len(anchor: Vec3, fwd: Vec3, first: bool, olds: Seq<Vec3>, n: nat)
    ensures
        chain(anchor, fwd, first, olds, n).len() == n,
    decreases n,
{
    if n > 0 {
        let prev = if olds.len() > 0 { Some(olds[0]) } else { None };
        let back = if first { PLAYER_BACK_OFFSET } else { CART_BACK_OFFSET };
        let (c, f) = place_cart(anchor, fwd, back as int, prev);
        lemma_chain_len(c, f, false, rest(olds, 1), (n - 1) as nat);
    }
}

/// Computes the trailer of `len` entries for a player at `pos` facing `yaw`; see `trailer_spec`.
pub fn rebuild_trailer(pos: Vec3, yaw: i64, old: &Vec<Vec3>, len: usize) -> (r: Vec<Vec3>)
    requires
        pos.wf(),
        0 <= yaw < ANGLE_FULL,
        len >= 1,
        forall|i: int| 0 <= i < old@.len() ==> (#[trigger] old@[i]).wf(),
    ensures
        r@ == trailer_spec(pos, yaw as int, old@, len as int),
        r@.len() == len,
        forall|i: int| 0 <= i < r@.len() ==> (#[trigger] r@[i]).wf(),
{
    let mut out: Vec<Vec3> = Vec::new();
    out.push(pos);
    let mut anchor = pos;
    let mut fwd = Vec3 { x: sin_approx(yaw), y: 0, z: cos_approx(yaw) };
    let n: usize = len - 1;
    let mut k: usize = 0;
    let ghost target = trailer_spec(pos, yaw as int, old@, len as int);
    assert(out@ == seq![pos]);
    while k < n
        invariant
            k <= n,
            n == len - 1,
            out@.len() == k + 1,
            out@ + chain(anchor, fwd, k == 0, rest(old@, 1 + k), (n - k) as nat) == target,
            target == trailer_spec(pos, yaw as int, old@, len as int),
            anchor.wf(),
            unit_bounded(fwd),
            forall|i: int| 0 <= i < old@.len() ==> (#[trigger] old@[i]).wf(),
            forall|i: int| 0 <= i < out@.len() ==> (#[trigger] out@[i]).wf(),
        decreases n - k,
    {
        let prev = if k + 1 < old.len() { Some(old[k + 1]) } else { None };
        let back = if k == 0 { PLAYER_BACK_OFFSET } else { CART_BACK_OFFSET };
        let (c, f) = place_cart_exec(anchor, fwd, back, prev);
        proof {
            let olds = rest(old@, 1 + k);
            assert(olds.len() > 0 <==> 1 + k < old@.len());
            if 1 + k < old@.len() {
                assert(olds[0] == old@[1 + k]);
            }
            let tail = rest(olds, 1);
            assert(tail =~= rest(old@, 1 + k + 1));
            let m = (n - k) as nat;
            assert(chain(anchor, fwd, k == 0, olds, m) == seq![c] + chain(c, f, false, tail, (m - 1) as nat));
            assert(out@.push(c) + chain(c, f, false, tail, (m - 1) as nat) =~= out@ + chain(anchor, fwd, k == 0, olds, m));
        }
        out.push(c);
        anchor = c;
        fwd = f;
        k = k + 1;
    }
    proof {
        assert(chain(anchor, fwd, k == 0, rest(old@, 1 + k), 0) =~= Seq::empty());
        assert(out@ =~= target);
    }
    out
}

} // verus!
