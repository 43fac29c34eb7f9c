//! The layout of point-light shadow maps: the six faces of a cube map stored
//! side by side in one atlas texture two faces wide and three faces high.

use vstd::prelude::*;

verus! {

/// The number of faces of a cube map.
pub const CUBE_FACES: usize = 6;

/// A rectangle of texels: its lower-left corner and its size.
#[derive(PartialEq, Eq, Structural, Debug, Clone, Copy)]
pub struct Viewport {
    pub left: u32,
    pub bottom: u32,
    pub width: u32,
    pub height: u32,
}

/// Face `face` sits in column `face % 2` and row `face / 2` of the atlas.
pub open spec fn face_rect(face: int, res: int) -> (int, int, int, int) {
    ((face % 2) * res, (face / 2) * res, res, res)
}

/// The atlas row of face `face`: `face / 2`, taken as a 32-bit number (its
/// low 32 bits).
pub open spec fn atlas_row(face: usize) -> u32 {
    (face / 2) as u32
}

/// The rectangle of the atlas that face `face` of a cube map of side `res` is
/// drawn into (row 0 at the bottom). The row's offset must fit in 32 bits.
pub fn face_viewport(face: usize, res: u32) -> (r: Viewport)
    requires
        atlas_row(face) * res <= u32::MAX,
    ensures
        r.left == (face % 2) * res,
        r.bottom == atlas_row(face) * res,
        r.width == res,
        r.height == res,
        face / 2 <= u32::MAX ==> (r.left as int, r.bottom as int, r.width as int, r.height as int) == face_rect(face as int, res as int),
{
    let col: u32 = (face % 2) as u32;
    let row: u32 = (face / 2) as u32;
    assert(col * res <= res) by (nonlinear_arith)
        requires
            col <= 1,
    ;
    Viewport { left: col * res, bottom: row * res, width: res, height: res }
}

/// The six faces of a cube map of side `res` lie inside the atlas of
/// `2 * res` by `3 * res` texels and do not overlap.
pub proof fn lemma_faces_tile_atlas(res: int, f: int, g: int, x: int, y: int)
    requires
        res > 0,
        0 <= f < 6,
        0 <= g < 6,
    ensures
        0 <= face_rect(f, res).0,
        face_rect(f, res).0 + res <= 2 * res,
        0 <= face_rect(f, res).1,
        face_rect(f, res).1 + res <= 3 * res,
        f != g ==> !(face_rect(f, res).0 <= x < face_rect(f, res).0 + res
            && face_rect(f, res).1 <= y < face_rect(f, res).1 + res
            && face_rect(g, res).0 <= x < face_rect(g, res).0 + res
            && face_rect(g, res).1 <= y < face_rect(g, res).1 + res),
{
    assert(0 <= (f % 2) * res + res <= 2 * res) by (nonlinear_arith)
        requires 0 <= f % 2 <= 1, res > 0;
    assert(0 <= (f / 2) * res + res <= 3 * res) by (nonlinear_arith)
        requires 0 <= f / 2 <= 2, res > 0;
    if f != g {
        let (cf, rf, cg, rg) = (f % 2, f / 2, g % 2, g / 2);
        assert(cf != cg || rf != rg);
        if cf != cg {
            assert(!(cf * res <= x < cf * res + res && cg * res <= x < cg * res + res)) by (nonlinear_arith)
                requires cf != cg, 0 <= cf <= 1, 0 <= cg <= 1, res > 0;
        } else {
            assert(!(rf * res <= y < rf * res + res && rg * res <= y < rg * res + res)) by (nonlinear_arith)
                requires rf != rg, 0 <= rf <= 2, 0 <= rg <= 2, res > 0;
        }
    }
}

} // verus!
