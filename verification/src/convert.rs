//! Fixed-point YUV 4:2:0 → RGBA conversion.
//!
//! BT.601 coefficients are scaled by 1024 and applied in integer
//! arithmetic: R = Y + 1.402·V', G = Y − 0.344136·U' − 0.714136·V',
//! B = Y + 1.772·U' (with U' = U − 128, V' = V − 128) become the scaled
//! numerators below, divided by 1024 and clamped to 0..=255. Every plane
//! access is bounds-checked; a pixel whose indices fall outside a plane is
//! left at the buffer's fill value (opaque white) rather than faulting.

use vstd::prelude::*;
use vstd::pervasive::VecAdditionalExecFns;
use vstd::slice::slice_index_get;
use vstd::arithmetic::div_mod::{lemma_fundamental_div_mod, lemma_mod_division_less_than_divisor};

verus! {

/// Clamp a scaled numerator to a color component: negative values floor at
/// 0, quotients above 255 cap there.
pub open spec fn clamp_fix(num: int) -> int {
    if num < 0 {
        0
    } else if num / 1024 > 255 {
        255
    } else {
        num / 1024
    }
}

/// Scaled numerator of the red component (1.402 ≈ 1436/1024).
pub open spec fn red_num(y: int, v: int) -> int {
    1024 * y + 1436 * (v - 128)
}

/// Scaled numerator of the green component (0.344136 ≈ 352/1024,
/// 0.714136 ≈ 731/1024).
pub open spec fn green_num(y: int, u: int, v: int) -> int {
    1024 * y - 352 * (u - 128) - 731 * (v - 128)
}

/// Scaled numerator of the blue component (1.772 ≈ 1815/1024).
pub open spec fn blue_num(y: int, u: int) -> int {
    1024 * y + 1815 * (u - 128)
}

/// Index of a pixel's luma sample in the Y plane.
pub open spec fn luma_index(row: int, col: int, stride: int) -> int {
    row * stride + col
}

/// Index of a pixel's chroma sample in a half-resolution plane: each
/// chroma sample covers a 2×2 luma block.
pub open spec fn chroma_index(row: int, col: int, stride: int) -> int {
    (row / 2) * stride + col / 2
}

/// All three plane accesses for this pixel are inside their buffers.
pub open spec fn pixel_in_bounds(
    yp: Seq<u8>, up: Seq<u8>, vp: Seq<u8>, ys: int, us: int, vs: int, row: int, col: int,
) -> bool {
    &&& luma_index(row, col, ys) < yp.len()
    &&& chroma_index(row, col, us) < up.len()
    &&& chroma_index(row, col, vs) < vp.len()
}

/// The four RGBA bytes of one pixel: the fixed-point conversion of its
/// samples when they are in bounds, else the untouched fill value. Alpha
/// is always opaque.
pub open spec fn pixel_rgba(
    yp: Seq<u8>, up: Seq<u8>, vp: Seq<u8>, ys: int, us: int, vs: int, row: int, col: int,
) -> (u8, u8, u8, u8) {
    if pixel_in_bounds(yp, up, vp, ys, us, vs, row, col) {
        let y = yp[luma_index(row, col, ys)] as int;
        let u = up[chroma_index(row, col, us)] as int;
        let v = vp[chroma_index(row, col, vs)] as int;
        (
            clamp_fix(red_num(y, v)) as u8,
            clamp_fix(green_num(y, u, v)) as u8,
            clamp_fix(blue_num(y, u)) as u8,
            255u8,
        )
    } else {
        (255u8, 255u8, 255u8, 255u8)
    }
}

/// The output holds this pixel's four bytes at its row-major position.
pub open spec fn rgba_pixel_written(
    out: Seq<u8>, yp: Seq<u8>, up: Seq<u8>, vp: Seq<u8>, ys: int, us: int, vs: int, w: int,
    row: int, col: int,
) -> bool {
    let base = 4 * (row * w + col);
    let px = pixel_rgba(yp, up, vp, ys, us, vs, row, col);
    &&& out[base] == px.0
    &&& out[base + 1] == px.1
    &&& out[base + 2] == px.2
    &&& out[base + 3] == px.3
}

/// The alpha byte of pixel `k` in a packed RGBA buffer.
pub open spec fn alpha_at(out: Seq<u8>, k: int) -> u8 {
    out[4 * k + 3]
}

/// Divide a nonnegative scaled numerator by 1024 and clamp to 0..=255.
fn clamp_component(num: i32) -> (r: u8)
    ensures
        r as int == clamp_fix(num as int),
{
    if num < 0 {
        0
    } else {
        let q = (num as u32) / 1024;
        if q > 255 {
            255
        } else {
            q as u8
        }
    }
}

/// Convert one planar YUV 4:2:0 picture (independent row strides per
/// plane) into a packed RGBA buffer of exactly `w * h * 4` bytes, alpha
/// fixed at 255. Pixels whose samples lie outside a plane — malformed
/// decoder output — are skipped, never a fault.
pub fn yuv420_to_rgba(
    y_data: &[u8], u_data: &[u8], v_data: &[u8],
    y_stride: usize, u_stride: usize, v_stride: usize,
    w: usize, h: usize,
) -> (rgba: Vec<u8>)
    requires
        w * h * 4 <= usize::MAX,
    ensures
        rgba@.len() == w * h * 4,
        forall|row: int, col: int| 0 <= row < h && 0 <= col < w ==> rgba_pixel_written(
            rgba@, y_data@, u_data@, v_data@,
            y_stride as int, u_stride as int, v_stride as int, w as int, row, col,
        ),
        forall|k: int| 0 <= k < w * h ==> alpha_at(rgba@, k) == 255u8,
{
    let ghost yp = y_data@;
    let ghost up = u_data@;
    let ghost vp = v_data@;
    let ghost ys = y_stride as int;
    let ghost us = u_stride as int;
    let ghost vs = v_stride as int;

    proof {
        assert(0 <= w * h) by (nonlinear_arith)
            requires 0 <= w as int, 0 <= h as int;
    }
    let total: usize = w * h * 4;
    let mut rgba: Vec<u8> = Vec::new();
    while rgba.len() < total
        invariant
            rgba@.len() <= total,
            forall|j: int| 0 <= j < rgba@.len() ==> rgba@[j] == 255u8,
        decreases total - rgba@.len(),
    {
        rgba.push(255u8);
    }

    let mut row: usize = 0;
    while row < h
        invariant
            yp == y_data@,
            up == u_data@,
            vp == v_data@,
            ys == y_stride as int,
            us == u_stride as int,
            vs == v_stride as int,
            w * h * 4 <= usize::MAX,
            total == w * h * 4,
            row <= h,
            rgba@.len() == total,
            forall|r2: int, c2: int| 0 <= r2 < row && 0 <= c2 < w
                ==> rgba_pixel_written(rgba@, yp, up, vp, ys, us, vs, w as int, r2, c2),
            forall|j: int| 4 * (row * w) <= j < rgba@.len() ==> rgba@[j] == 255u8,
        decreases h - row,
    {
        let mut col: usize = 0;
        while col < w
            invariant
                yp == y_data@,
                up == u_data@,
                vp == v_data@,
                ys == y_stride as int,
                us == u_stride as int,
                vs == v_stride as int,
                w * h * 4 <= usize::MAX,
                total == w * h * 4,
                row < h,
                col <= w,
                rgba@.len() == total,
                forall|r2: int, c2: int| 0 <= r2 < row && 0 <= c2 < w
                    ==> rgba_pixel_written(rgba@, yp, up, vp, ys, us, vs, w as int, r2, c2),
                forall|c2: int| 0 <= c2 < col
                    ==> rgba_pixel_written(rgba@, yp, up, vp, ys, us, vs, w as int, row as int, c2),
                forall|j: int| 4 * (row * w + col) <= j < rgba@.len() ==> rgba@[j] == 255u8,
            decreases w - col,
        {
            let ghost r_i = row as int;
            let ghost c_i = col as int;
            let ghost w_i = w as int;
            proof {
                assert(r_i * w_i + c_i < w_i * (h as int) && 0 <= r_i * w_i) by (nonlinear_arith)
                    requires
                        0 <= r_i,
                        r_i < h as int,
                        0 <= c_i,
                        c_i < w_i,
                ;
                assert(w as int * (h as int) <= w * h * 4);
            }
            let ghost base = 4 * (r_i * w_i + c_i);
            proof {
                assert(base + 4 <= total);
                // The index computations below stay inside u128.
                assert(r_i * ys <= 0xffff_ffff_ffff_ffff * 0xffff_ffff_ffff_ffff
                    && (r_i / 2) * us <= 0xffff_ffff_ffff_ffff * 0xffff_ffff_ffff_ffff
                    && (r_i / 2) * vs <= 0xffff_ffff_ffff_ffff * 0xffff_ffff_ffff_ffff
                    && 0 <= r_i * ys && 0 <= (r_i / 2) * us && 0 <= (r_i / 2) * vs)
                    by (nonlinear_arith)
                    requires
                        0 <= r_i <= 0xffff_ffff_ffff_ffff,
                        0 <= ys <= 0xffff_ffff_ffff_ffff,
                        0 <= us <= 0xffff_ffff_ffff_ffff,
                        0 <= vs <= 0xffff_ffff_ffff_ffff,
                ;
            }
            let yi: u128 = (row as u128) * (y_stride as u128) + (col as u128);
            let ui: u128 = ((row / 2) as u128) * (u_stride as u128) + ((col / 2) as u128);
            let vi: u128 = ((row / 2) as u128) * (v_stride as u128) + ((col / 2) as u128);
            proof {
                assert(yi == luma_index(r_i, c_i, ys));
                assert(ui == chroma_index(r_i, c_i, us));
                assert(vi == chroma_index(r_i, c_i, vs));
            }

            let ghost before = rgba@;
            if yi < (y_data.len() as u128) && ui < (u_data.len() as u128)
                && vi < (v_data.len() as u128) {
                let y = *slice_index_get(y_data, yi as usize) as i32;
                let u = *slice_index_get(u_data, ui as usize) as i32;
                let v = *slice_index_get(v_data, vi as usize) as i32;
                let rn: i32 = 1024 * y + 1436 * (v - 128);
                let gn: i32 = 1024 * y - 352 * (u - 128) - 731 * (v - 128);
                let bn: i32 = 1024 * y + 1815 * (u - 128);
                let rr = clamp_component(rn);
                let gg = clamp_component(gn);
                let bb = clamp_component(bn);
                let base_idx: usize = (row * w + col) * 4;
                rgba.set(base_idx, rr);
                rgba.set(base_idx + 1, gg);
                rgba.set(base_idx + 2, bb);
                rgba.set(base_idx + 3, 255u8);
                proof {
                    assert(pixel_in_bounds(yp, up, vp, ys, us, vs, r_i, c_i));
                    assert(rgba_pixel_written(rgba@, yp, up, vp, ys, us, vs, w_i, r_i, c_i));
                }
            } else {
                proof {
                    assert(!pixel_in_bounds(yp, up, vp, ys, us, vs, r_i, c_i));
                    assert(rgba@[base] == 255u8 && rgba@[base + 1] == 255u8
                        && rgba@[base + 2] == 255u8 && rgba@[base + 3] == 255u8);
                    assert(rgba_pixel_written(rgba@, yp, up, vp, ys, us, vs, w_i, r_i, c_i));
                }
            }
            proof {
                assert forall|r2: int, c2: int| 0 <= r2 < row && 0 <= c2 < w
                    implies rgba_pixel_written(rgba@, yp, up, vp, ys, us, vs, w_i, r2, c2) by {
                    assert(0 <= 4 * (r2 * w_i + c2) && 4 * (r2 * w_i + c2) + 3 < base)
                        by (nonlinear_arith)
                        requires
                            0 <= r2,
                            r2 < r_i,
                            0 <= c2,
                            c2 < w_i,
                            0 <= c_i,
                            base == 4 * (r_i * w_i + c_i),
                    ;
                    assert(rgba_pixel_written(before, yp, up, vp, ys, us, vs, w_i, r2, c2));
                }
                assert forall|c2: int| 0 <= c2 < col + 1
                    implies rgba_pixel_written(rgba@, yp, up, vp, ys, us, vs, w_i, r_i, c2) by {
                    if c2 < c_i {
                        assert(0 <= 4 * (r_i * w_i + c2) && 4 * (r_i * w_i + c2) + 3 < base);
                        assert(rgba_pixel_written(before, yp, up, vp, ys, us, vs, w_i, r_i, c2));
                    }
                }
                assert forall|j: int| 4 * (row * w + (col + 1)) <= j < rgba@.len()
                    implies rgba@[j] == 255u8 by {
                    assert(before[j] == 255u8);
                }
            }
            col = col + 1;
        }
        proof {
            assert((row as int + 1) * (w as int) == row as int * (w as int) + (w as int))
                by (nonlinear_arith);
            assert forall|r2: int, c2: int| 0 <= r2 < row + 1 && 0 <= c2 < w
                implies rgba_pixel_written(rgba@, yp, up, vp, ys, us, vs, w as int, r2, c2) by {
            }
        }
        row = row + 1;
    }
    proof {
        assert forall|k: int| 0 <= k < w * h implies alpha_at(rgba@, k) == 255u8 by {
            let w_i = w as int;
            assert(w_i > 0) by (nonlinear_arith)
                requires 0 <= k, k < w_i * (h as int), 0 <= w_i;
            let r2 = k / w_i;
            let c2 = k % w_i;
            lemma_fundamental_div_mod(k, w_i);
            lemma_mod_division_less_than_divisor(k, w_i);
            assert(0 <= r2 && r2 < h as int) by (nonlinear_arith)
                requires
                    w_i > 0,
                    0 <= k,
                    k < w_i * (h as int),
                    k == w_i * r2 + c2,
                    0 <= c2 < w_i,
            ;
            assert(rgba_pixel_written(rgba@, yp, up, vp, ys, us, vs, w_i, r2, c2));
            assert(4 * k + 3 == 4 * (r2 * w_i + c2) + 3) by (nonlinear_arith)
                requires k == w_i * r2 + c2;
        }
    }
    rgba
}

} // verus!
