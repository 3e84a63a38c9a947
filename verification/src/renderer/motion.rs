use vstd::prelude::*;

verus! {

/// The warp-mesh vertex that motion-vector grid point `(gx, gy)` of an
/// `nx` x `ny` grid samples, on a mesh `mw` x `mh` vertices.
pub open spec fn motion_vertex(gx: int, gy: int, nx: int, ny: int, mw: int, mh: int) -> int {
    (gy * (mh - 1) / ny) * mw + gx * (mw - 1) / nx
}

/// The grid is non-empty, no denser than the mesh, and small enough that its
/// index arithmetic fits `usize`.
pub open spec fn motion_grid_fits(nx: int, ny: int, mw: int, mh: int) -> bool {
    &&& 1 <= nx <= mw
    &&& 1 <= ny <= mh
    &&& nx * mw <= usize::MAX
    &&& ny * mh <= usize::MAX
    &&& mw * mh <= usize::MAX
}

proof fn lemma_motion_vertex(gx: int, gy: int, nx: int, ny: int, mw: int, mh: int)
    requires
        motion_grid_fits(nx, ny, mw, mh),
        0 <= gx < nx,
        0 <= gy < ny,
    ensures
        0 <= gx * (mw - 1) <= nx * mw,
        0 <= gy * (mh - 1) <= ny * mh,
        0 <= gx * (mw - 1) / nx <= mw - 1,
        0 <= gy * (mh - 1) / ny <= mh - 1,
        0 <= motion_vertex(gx, gy, nx, ny, mw, mh) < mw * mh,
{
    assert(0 <= gx * (mw - 1) <= nx * mw) by (nonlinear_arith)
        requires
            0 <= gx < nx,
            1 <= mw,
    ;
    assert(0 <= gy * (mh - 1) <= ny * mh) by (nonlinear_arith)
        requires
            0 <= gy < ny,
            1 <= mh,
    ;
    assert(0 <= gx * (mw - 1) / nx <= mw - 1) by (nonlinear_arith)
        requires
            0 <= gx < nx,
            1 <= mw,
    ;
    assert(0 <= gy * (mh - 1) / ny <= mh - 1) by (nonlinear_arith)
        requires
            0 <= gy < ny,
            1 <= mh,
    ;
    let my = gy * (mh - 1) / ny;
    let mx = gx * (mw - 1) / nx;
    assert(0 <= my * mw + mx < mw * mh) by (nonlinear_arith)
        requires
            0 <= my <= mh - 1,
            0 <= mx <= mw - 1,
            1 <= mw,
    ;
}

/// The mesh vertex sampled by each point of the motion-vector grid, row by row.
pub fn motion_grid(nx: usize, ny: usize, mw: usize, mh: usize) -> (verts: Vec<usize>)
    requires
        motion_grid_fits(nx as int, ny as int, mw as int, mh as int),
    ensures
        verts@.len() == nx * ny,
        forall|gy: int, gx: int|
            0 <= gy < ny && 0 <= gx < nx ==> #[trigger] verts@[gy * nx + gx] == motion_vertex(
                gx,
                gy,
                nx as int,
                ny as int,
                mw as int,
                mh as int,
            ),
        forall|i: int| 0 <= i < verts@.len() ==> #[trigger] verts@[i] < mw * mh,
{
    let mut verts: Vec<usize> = Vec::new();
    let mut gy: usize = 0;
    while gy < ny
        invariant
            motion_grid_fits(nx as int, ny as int, mw as int, mh as int),
            gy <= ny,
            verts@.len() == gy * nx,
            forall|y: int, x: int|
                0 <= y < gy && 0 <= x < nx ==> #[trigger] verts@[y * nx + x] == motion_vertex(
                    x,
                    y,
                    nx as int,
                    ny as int,
                    mw as int,
                    mh as int,
                ),
            forall|i: int| 0 <= i < verts@.len() ==> #[trigger] verts@[i] < mw * mh,
        decreases ny - gy,
    {
        let mut gx: usize = 0;
        while gx < nx
            invariant
                motion_grid_fits(nx as int, ny as int, mw as int, mh as int),
                gy < ny,
                gx <= nx,
                verts@.len() == gy * nx + gx,
                forall|y: int, x: int|
                    0 <= y < ny && 0 <= x < nx && (y < gy || (y == gy && x < gx)) ==> #[trigger] verts@[y
                        * nx + x] == motion_vertex(x, y, nx as int, ny as int, mw as int, mh as int),
                forall|i: int| 0 <= i < verts@.len() ==> #[trigger] verts@[i] < mw * mh,
            decreases nx - gx,
        {
            proof {
                lemma_motion_vertex(gx as int, gy as int, nx as int, ny as int, mw as int, mh as int);
            }
            let mx = gx * (mw - 1) / nx;
            let my = gy * (mh - 1) / ny;
            let vi = my * mw + mx;
            let ghost before = verts@;
            verts.push(vi);
            assert forall|y: int, x: int|
                0 <= y < ny && 0 <= x < nx && (y < gy || (y == gy && x < gx + 1)) implies #[trigger] verts@[y
                    * nx + x] == motion_vertex(x, y, nx as int, ny as int, mw as int, mh as int) by {
                if !(y == gy && x == gx) {
                    if y < gy {
                        assert(y * nx + x < gy * nx) by (nonlinear_arith)
                            requires
                                y + 1 <= gy,
                                0 <= x < nx,
                        ;
                    }
                    assert(y * nx + x < before.len());
                    assert(verts@[y * nx + x] == before[y * nx + x]);
                }
            }
            gx += 1;
        }
        assert((gy + 1) * nx == gy * nx + nx) by (nonlinear_arith);
        gy += 1;
    }
    assert(ny * nx == nx * ny) by (nonlinear_arith);
    verts
}

} // verus!
