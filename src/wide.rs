//! Products of two 128-bit integers, held as a high and a low 128-bit half,
//! and their comparison.
use vstd::prelude::*;

verus! {

/// 2 to the 64th.
pub open spec fn limb() -> int {
    0x1_0000_0000_0000_0000int
}

/// 2 to the 128th.
pub open spec fn half() -> int {
    limb() * limb()
}

/// The value of a high and a low half.
pub open spec fn wide_value(hi: u128, lo: u128) -> int {
    hi * half() + lo
}

/// `a * b`, as a high and a low half.
pub fn mul_wide(a: u128, b: u128) -> (r: (u128, u128))
    ensures
        wide_value(r.0, r.1) == a * b,
{
    let base: u128 = 0x1_0000_0000_0000_0000;
    let a0 = a % base;
    let a1 = a / base;
    let b0 = b % base;
    let b1 = b / base;
    proof {
        assert(a1 < limb() && b1 < limb()) by (nonlinear_arith)
            requires a1 == (a as int) / limb(), b1 == (b as int) / limb(), a < half(), b < half(), half() == limb() * limb();
        assert(a0 * b0 < half() && a0 * b1 < half() && a1 * b0 < half() && a1 * b1 < half()) by (nonlinear_arith)
            requires a0 < limb(), b0 < limb(), a1 < limb(), b1 < limb(), half() == limb() * limb(),
                a0 >= 0, b0 >= 0, a1 >= 0, b1 >= 0;
    }
    let p00 = a0 * b0;
    let p01 = a0 * b1;
    let p10 = a1 * b0;
    let p11 = a1 * b1;
    let mid = p00 / base + p01 % base + p10 % base;
    let lo = (mid % base) * base + p00 % base;
    let ghost hi_int: int = p11 + p01 / base + p10 / base + mid / base;
    proof {
        let bb = limb();
        let (ai, bi, x00, x01, x10, x11, m) = (a as int, b as int, p00 as int, p01 as int, p10 as int, p11 as int, mid as int);
        assert(ai == a1 * bb + a0 && bi == b1 * bb + b0) by {
            vstd::arithmetic::div_mod::lemma_fundamental_div_mod(ai, bb);
            vstd::arithmetic::div_mod::lemma_fundamental_div_mod(bi, bb);
        }
        vstd::arithmetic::div_mod::lemma_fundamental_div_mod(x00, bb);
        vstd::arithmetic::div_mod::lemma_fundamental_div_mod(x01, bb);
        vstd::arithmetic::div_mod::lemma_fundamental_div_mod(x10, bb);
        vstd::arithmetic::div_mod::lemma_fundamental_div_mod(m, bb);
        assert(ai * bi == x11 * (bb * bb) + (x01 + x10) * bb + x00) by (nonlinear_arith)
            requires ai == a1 * bb + a0, bi == b1 * bb + b0, x00 == a0 * b0, x01 == a0 * b1,
                x10 == a1 * b0, x11 == a1 * b1;
        let (q00, r00, q01, r01, q10, r10, qm, rm) = (x00 / bb, x00 % bb, x01 / bb, x01 % bb, x10 / bb, x10 % bb, m / bb, m % bb);
        assert(x11 * (bb * bb) + (x01 + x10) * bb + x00
            == (x11 + q01 + q10) * (bb * bb) + (r01 + r10 + q00) * bb + r00) by (nonlinear_arith)
            requires x00 == q00 * bb + r00, x01 == q01 * bb + r01, x10 == q10 * bb + r10;
        assert((x11 + q01 + q10) * (bb * bb) + m * bb + r00
            == (x11 + q01 + q10 + qm) * (bb * bb) + rm * bb + r00) by (nonlinear_arith)
            requires m == qm * bb + rm;
        assert(lo == rm * bb + r00);
        assert(hi_int == x11 + q01 + q10 + qm);
        assert(hi_int < bb * bb) by (nonlinear_arith)
            requires
                ai * bi == hi_int * (bb * bb) + lo,
                lo >= 0,
                ai < bb * bb, bi < bb * bb, ai >= 0, bi >= 0, bb > 0;
    }
    let hi = p11 + p01 / base + p10 / base + mid / base;
    (hi, lo)
}

/// Whether the first wide value is strictly greater than the second.
pub fn gt_wide(ahi: u128, alo: u128, bhi: u128, blo: u128) -> (r: bool)
    ensures
        r == (wide_value(ahi, alo) > wide_value(bhi, blo)),
{
    proof {
        let h = half();
        if ahi > bhi {
            assert(ahi * h + alo > bhi * h + blo) by (nonlinear_arith)
                requires ahi >= bhi + 1, alo >= 0, blo < h, h > 0;
        } else if ahi < bhi {
            assert(ahi * h + alo < bhi * h + blo) by (nonlinear_arith)
                requires bhi >= ahi + 1, blo >= 0, alo < h, h > 0;
        }
    }
    ahi > bhi || (ahi == bhi && alo > blo)
}

/// The value of four 128-bit limbs, lowest first.
pub open spec fn quad_value(r: (u128, u128, u128, u128)) -> int {
    r.0 + r.1 * half() + r.2 * (half() * half()) + r.3 * (half() * half() * half())
}

/// `x > y` for two-part numbers `xl + xh * k` and `yl + yh * k` with low
/// parts below `k` is decided by the high parts first.
proof fn lemma_two_part_order(xl: int, xh: int, yl: int, yh: int, k: int)
    requires
        0 <= xl < k,
        0 <= yl < k,
    ensures
        (xl + xh * k > yl + yh * k) == (xh > yh || (xh == yh && xl > yl)),
{
    assert(xh * k - yh * k == (xh - yh) * k) by (nonlinear_arith);
    if xh > yh {
        assert((xh - yh) * k >= k) by (nonlinear_arith)
            requires xh - yh >= 1, k >= 1;
    } else if xh < yh {
        assert((yh - xh) * k >= k) by (nonlinear_arith)
            requires yh - xh >= 1, k >= 1;
        assert((xh - yh) * k == -((yh - xh) * k)) by (nonlinear_arith);
    }
}

/// `x + y`, as a low part and a carry of 0 or 1.
fn add_carry(x: u128, y: u128) -> (r: (u128, u128))
    ensures
        r.0 + r.1 * half() == x + y,
        r.1 <= 1,
{
    if x <= u128::MAX - y {
        (x + y, 0)
    } else {
        (x - (u128::MAX - y) - 1, 1)
    }
}

/// `a - b` on two-part numbers `lo + hi * 2^128`, where `a >= b`.
pub fn sub_wide(alo: u128, ahi: u128, blo: u128, bhi: u128) -> (r: (u128, u128))
    requires
        wide_value(ahi, alo) >= wide_value(bhi, blo),
    ensures
        wide_value(r.1, r.0) == wide_value(ahi, alo) - wide_value(bhi, blo),
{
    proof {
        lemma_two_part_order(blo as int, bhi as int, alo as int, ahi as int, half());
    }
    if alo >= blo {
        (alo - blo, ahi - bhi)
    } else {
        ((u128::MAX - blo) + alo + 1, ahi - bhi - 1)
    }
}

/// `a * b` on two-part numbers `lo + hi * 2^128`, as four limbs.
pub fn mul_quad(alo: u128, ahi: u128, blo: u128, bhi: u128) -> (r: (u128, u128, u128, u128))
    ensures
        quad_value(r) == wide_value(ahi, alo) * wide_value(bhi, blo),
{
    let (h00, l00) = mul_wide(alo, blo);
    let (h01, l01) = mul_wide(alo, bhi);
    let (h10, l10) = mul_wide(ahi, blo);
    let (h11, l11) = mul_wide(ahi, bhi);
    let (t1, c1a) = add_carry(h00, l01);
    let (r1, c1b) = add_carry(t1, l10);
    let c1 = c1a + c1b;
    let (t2, c2a) = add_carry(h01, h10);
    let (t3, c2b) = add_carry(t2, l11);
    let (r2, c2c) = add_carry(t3, c1);
    let c2 = c2a + c2b + c2c;
    let ghost h = half();
    let ghost top: int = h11 + c2;
    proof {
        let a0 = alo as int;
        let a1 = ahi as int;
        let b0 = blo as int;
        let b1 = bhi as int;
        assert(h == 0x1_0000_0000_0000_0000_0000_0000_0000_0000int);
        let av = wide_value(ahi, alo);
        let bv = wide_value(bhi, blo);
        assert(av == a1 * h + a0 && bv == b1 * h + b0);
        let x = a1 * h;
        let y = b1 * h;
        assert(av * bv == x * bv + a0 * bv) by (nonlinear_arith)
            requires av == x + a0;
        assert(x * bv == x * y + x * b0) by (nonlinear_arith)
            requires bv == y + b0;
        assert(a0 * bv == a0 * y + a0 * b0) by (nonlinear_arith)
            requires bv == y + b0;
        assert(x * y == (a1 * b1) * (h * h)) by (nonlinear_arith)
            requires x == a1 * h, y == b1 * h;
        assert(x * b0 == (a1 * b0) * h) by (nonlinear_arith)
            requires x == a1 * h;
        assert(a0 * y == (a0 * b1) * h) by (nonlinear_arith)
            requires y == b1 * h;
        assert((a0 * b1 + a1 * b0) * h == (a0 * b1) * h + (a1 * b0) * h) by (nonlinear_arith);
        assert(av * bv == a0 * b0 + (a0 * b1 + a1 * b0) * h + (a1 * b1) * (h * h));
        assert(a0 * b0 + (a0 * b1 + a1 * b0) * h + (a1 * b1) * (h * h)
            == l00 + (h00 + l01 + l10) * h + (h01 + h10 + l11) * (h * h) + h11 * (h * h * h))
            by (nonlinear_arith)
            requires
                a0 * b0 == h00 * h + l00,
                a0 * b1 == h01 * h + l01,
                a1 * b0 == h10 * h + l10,
                a1 * b1 == h11 * h + l11,
        ;
        assert(c1 * h == c1a * h + c1b * h) by (nonlinear_arith)
            requires c1 == c1a + c1b;
        assert(c2 * h == c2a * h + c2b * h + c2c * h) by (nonlinear_arith)
            requires c2 == c2a + c2b + c2c;
        assert(h00 + l01 + l10 == r1 + c1 * h);
        assert(h01 + h10 + l11 + c1 == r2 + c2 * h);
        assert(l00 + (h00 + l01 + l10) * h + (h01 + h10 + l11) * (h * h) + h11 * (h * h * h)
            == l00 + r1 * h + r2 * (h * h) + top * (h * h * h)) by (nonlinear_arith)
            requires
                h00 + l01 + l10 == r1 + c1 * h,
                h01 + h10 + l11 + c1 == r2 + c2 * h,
                top == h11 + c2,
        ;
        assert(wide_value(ahi, alo) < h * h && wide_value(bhi, blo) < h * h) by (nonlinear_arith)
            requires
                wide_value(ahi, alo) == a1 * h + a0,
                wide_value(bhi, blo) == b1 * h + b0,
                0 <= a0 < h, 0 <= a1 < h, 0 <= b0 < h, 0 <= b1 < h,
        ;
        assert(top < h) by (nonlinear_arith)
            requires
                wide_value(ahi, alo) * wide_value(bhi, blo) == l00 + r1 * h + r2 * (h * h) + top * (h * h * h),
                0 <= wide_value(ahi, alo) < h * h,
                0 <= wide_value(bhi, blo) < h * h,
                l00 >= 0, r1 >= 0, r2 >= 0, h > 0,
        ;
    }
    (l00, r1, r2, h11 + c2)
}

/// Whether the first four-limb value is strictly greater than the second.
pub fn gt_quad(a: (u128, u128, u128, u128), b: (u128, u128, u128, u128)) -> (r: bool)
    ensures
        r == (quad_value(a) > quad_value(b)),
{
    let hi_gt = gt_wide(a.3, a.2, b.3, b.2);
    let hi_eq = a.3 == b.3 && a.2 == b.2;
    let lo_gt = gt_wide(a.1, a.0, b.1, b.0);
    proof {
        let h = half();
        assert(h == 0x1_0000_0000_0000_0000_0000_0000_0000_0000int);
        assert(0 <= wide_value(a.1, a.0) < h * h && 0 <= wide_value(b.1, b.0) < h * h) by (nonlinear_arith)
            requires
                wide_value(a.1, a.0) == a.1 * h + a.0,
                wide_value(b.1, b.0) == b.1 * h + b.0,
                0 <= a.0 < h, 0 <= a.1 < h, 0 <= b.0 < h, 0 <= b.1 < h,
        ;
        assert(quad_value(a) == wide_value(a.1, a.0) + wide_value(a.3, a.2) * (h * h)) by (nonlinear_arith)
            requires
                quad_value(a) == a.0 + a.1 * h + a.2 * (h * h) + a.3 * (h * h * h),
                wide_value(a.1, a.0) == a.1 * h + a.0,
                wide_value(a.3, a.2) == a.3 * h + a.2,
        ;
        assert(quad_value(b) == wide_value(b.1, b.0) + wide_value(b.3, b.2) * (h * h)) by (nonlinear_arith)
            requires
                quad_value(b) == b.0 + b.1 * h + b.2 * (h * h) + b.3 * (h * h * h),
                wide_value(b.1, b.0) == b.1 * h + b.0,
                wide_value(b.3, b.2) == b.3 * h + b.2,
        ;
        lemma_two_part_order(wide_value(a.1, a.0), wide_value(a.3, a.2), wide_value(b.1, b.0), wide_value(b.3, b.2), h * h);
        lemma_two_part_order(a.2 as int, a.3 as int, b.2 as int, b.3 as int, h);
    }
    hi_gt || (hi_eq && lo_gt)
}

} // verus!
