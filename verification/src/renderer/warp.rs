use vstd::prelude::*;
use crate::renderer::gl::{all_whitespace, build_preset_frag, is_blank, spec_preset_frag};

verus! {

/// Warp shader body used when a preset gives none: fade the previous frame.
pub const FALLBACK_BODY: &'static str = "\n    ret = texture(sampler_main, uv).rgb * decay;\n";

/// The warp pass fragment shader for a preset's warp body (the fallback body
/// when it is blank).
pub open spec fn spec_warp_fragment_source(body: Seq<char>) -> Seq<char> {
    spec_preset_frag(if all_whitespace(body) { FALLBACK_BODY@ } else { body })
}

pub fn warp_fragment_source(body: &str) -> (src: String)
    ensures
        src@ == spec_warp_fragment_source(body@),
{
    let frag_body = if is_blank(body) { FALLBACK_BODY } else { body };
    build_preset_frag(frag_body)
}

/// Vertex `k` (of six) of the two triangles `(tl, bl, tr)` and `(tr, bl, br)`
/// that cover grid cell `(gx, gy)` of a mesh `mw` vertices wide.
pub open spec fn quad_index(mw: int, gy: int, gx: int, k: int) -> int {
    let tl = gy * mw + gx;
    if k == 0 {
        tl
    } else if k == 1 {
        tl + mw
    } else if k == 2 {
        tl + 1
    } else if k == 3 {
        tl + 1
    } else if k == 4 {
        tl + mw
    } else {
        tl + mw + 1
    }
}

/// The mesh dimensions keep every vertex index within `u32` and the index
/// count within `usize`.
pub open spec fn mesh_fits(mw: int, mh: int) -> bool {
    &&& 1 <= mw
    &&& 1 <= mh
    &&& mw * mh <= 0x1_0000_0000
    &&& 6 * ((mw - 1) * (mh - 1)) <= usize::MAX
}

/// The index buffer of a `mw` x `mh` vertex grid: two triangles per cell,
/// cells in row-major order.
pub open spec fn mesh_indices_spec(mw: int, mh: int, r: Seq<u32>) -> bool {
    &&& r.len() == 6 * ((mw - 1) * (mh - 1))
    &&& forall|gy: int, gx: int, k: int|
        0 <= gy < mh - 1 && 0 <= gx < mw - 1 && 0 <= k < 6 ==> #[trigger] r[6 * (gy * (mw - 1) + gx) + k]
            == quad_index(mw, gy, gx, k)
}

proof fn lemma_cell_bounds(mw: int, mh: int, gy: int, gx: int)
    requires
        mesh_fits(mw, mh),
        0 <= gy < mh - 1,
        0 <= gx < mw - 1,
    ensures
        gy * mw + gx + mw + 1 < mw * mh,
        gy * (mw - 1) + gx + 1 <= (mw - 1) * (mh - 1),
        0 <= gy * (mw - 1) + gx,
        0 <= gy * mw,
{
    assert(gy * mw + gx + mw + 1 < mw * mh) by (nonlinear_arith)
        requires
            0 <= gy < mh - 1,
            0 <= gx < mw - 1,
    ;
    assert(gy * (mw - 1) + gx + 1 <= (mw - 1) * (mh - 1)) by (nonlinear_arith)
        requires
            0 <= gy < mh - 1,
            0 <= gx < mw - 1,
    ;
    assert(0 <= gy * (mw - 1)) by (nonlinear_arith)
        requires
            0 <= gy,
            1 <= mw,
    ;
    assert(0 <= gy * mw) by (nonlinear_arith)
        requires
            0 <= gy,
            1 <= mw,
    ;
}

/// The triangle index buffer of the warp mesh (`mw` x `mh` vertices).
pub fn mesh_indices(mw: usize, mh: usize) -> (indices: Vec<u32>)
    requires
        mesh_fits(mw as int, mh as int),
    ensures
        mesh_indices_spec(mw as int, mh as int, indices@),
{
    let mut indices: Vec<u32> = Vec::new();
    let mut gy: usize = 0;
    while gy < mh - 1
        invariant
            mesh_fits(mw as int, mh as int),
            gy <= mh - 1,
            indices@.len() == 6 * (gy * (mw - 1)),
            forall|y: int, x: int, k: int|
                0 <= y < gy && 0 <= x < mw - 1 && 0 <= k < 6 ==> #[trigger] indices@[6 * (y * (mw - 1) + x) + k]
                    == quad_index(mw as int, y, x, k),
        decreases mh - 1 - gy,
    {
        let mut gx: usize = 0;
        assert(gy * (mw - 1) + 0 == gy * (mw - 1));
        while gx < mw - 1
            invariant
                mesh_fits(mw as int, mh as int),
                gy < mh - 1,
                gx <= mw - 1,
                indices@.len() == 6 * (gy * (mw - 1) + gx),
                forall|y: int, x: int, k: int|
                    0 <= y < mh - 1 && 0 <= x < mw - 1 && 0 <= k < 6 && (y < gy || (y == gy && x < gx))
                        ==> #[trigger] indices@[6 * (y * (mw - 1) + x) + k] == quad_index(mw as int, y, x, k),
            decreases mw - 1 - gx,
        {
            proof {
                lemma_cell_bounds(mw as int, mh as int, gy as int, gx as int);
            }
            let tl = (gy * mw + gx) as u32;
            let tr = tl + 1;
            let bl = tl + mw as u32;
            let br = bl + 1;
            let ghost before = indices@;
            indices.push(tl);
            indices.push(bl);
            indices.push(tr);
            indices.push(tr);
            indices.push(bl);
            indices.push(br);
            assert forall|y: int, x: int, k: int|
                0 <= y < mh - 1 && 0 <= x < mw - 1 && 0 <= k < 6 && (y < gy || (y == gy && x < gx + 1))
                    implies #[trigger] indices@[6 * (y * (mw - 1) + x) + k] == quad_index(mw as int, y, x, k) by {
                if y == gy && x == gx {
                } else {
                    lemma_cell_bounds(mw as int, mh as int, y, x);
                    if y < gy {
                        assert(y * (mw - 1) + x + 1 <= gy * (mw - 1)) by (nonlinear_arith)
                            requires
                                y + 1 <= gy,
                                0 <= x < mw - 1,
                                mw - 1 >= 0,
                        ;
                    }
                    assert(6 * (y * (mw - 1) + x) + k < before.len());
                    assert(indices@[6 * (y * (mw - 1) + x) + k] == before[6 * (y * (mw - 1) + x) + k]);
                }
            }
            gx += 1;
        }
        assert forall|y: int, x: int, k: int|
            0 <= y < gy + 1 && 0 <= x < mw - 1 && 0 <= k < 6 implies #[trigger] indices@[6 * (y * (mw - 1) + x) + k]
                == quad_index(mw as int, y, x, k) by {
        }
        assert((gy + 1) * (mw - 1) == gy * (mw - 1) + (mw - 1)) by (nonlinear_arith);
        gy += 1;
    }
    assert((mh - 1) * (mw - 1) == (mw - 1) * (mh - 1)) by (nonlinear_arith);
    indices
}

/// Every index of the warp mesh's index buffer names one of its `mw * mh` vertices.
pub proof fn law_mesh_indices_in_range(mw: int, mh: int, r: Seq<u32>, i: int)
    requires
        mesh_fits(mw, mh),
        mesh_indices_spec(mw, mh, r),
        0 <= i < r.len(),
    ensures
        r[i] < mw * mh,
{
    let c = i / 6;
    let k = i % 6;
    let gy = c / (mw - 1);
    let gx = c % (mw - 1);
    assert(i == 6 * c + k && 0 <= k < 6) by (nonlinear_arith)
        requires
            c == i / 6,
            k == i % 6,
            0 <= i,
    ;
    assert(0 <= c < (mw - 1) * (mh - 1)) by (nonlinear_arith)
        requires
            c == i / 6,
            0 <= i < 6 * ((mw - 1) * (mh - 1)),
    ;
    assert(mw - 1 > 0) by (nonlinear_arith)
        requires
            0 <= c < (mw - 1) * (mh - 1),
            1 <= mw,
            1 <= mh,
    ;
    assert(c == gy * (mw - 1) + gx && 0 <= gx < mw - 1 && 0 <= gy) by (nonlinear_arith)
        requires
            gy == c / (mw - 1),
            gx == c % (mw - 1),
            mw - 1 > 0,
            0 <= c,
    ;
    assert(gy < mh - 1) by (nonlinear_arith)
        requires
            c == gy * (mw - 1) + gx,
            0 <= gx < mw - 1,
            c < (mw - 1) * (mh - 1),
            mw - 1 > 0,
    ;
    lemma_cell_bounds(mw, mh, gy, gx);
    assert(r[6 * (gy * (mw - 1) + gx) + k] == quad_index(mw, gy, gx, k));
}

} // verus!
