//! The screen size, and the filter that turns away pictures much taller
//! than the screen.

use vstd::prelude::*;

verus! {

/// Whether a picture of `w` by `h` pixels is too vertical for a screen of
/// `sw` by `sh`: its ratio `(h / w) / (sh / sw)` exceeds 3/2. Written with
/// the divisions multiplied out, which also settles the empty sizes as
/// floating-point division would (an infinite ratio is too vertical, an
/// undefined one is not).
pub open spec fn too_vertical(w: int, h: int, sw: int, sh: int) -> bool {
    2 * h * sw > 3 * w * sh
}

/// Whether a picture of `width` by `height` pixels is too vertical for a
/// screen of `screen_width` by `screen_height`.
pub fn is_too_vertical(width: u32, height: u32, screen_width: u32, screen_height: u32) -> (r: bool)
    ensures
        r == too_vertical(width as int, height as int, screen_width as int, screen_height as int),
{
    let h = height as u128;
    let w = width as u128;
    let sw = screen_width as u128;
    let sh = screen_height as u128;
    proof {
        assert(h * sw <= 0xffff_ffff * 0xffff_ffff) by (nonlinear_arith)
            requires
                h <= 0xffff_ffff,
                sw <= 0xffff_ffff,
        ;
        assert(w * sh <= 0xffff_ffff * 0xffff_ffff) by (nonlinear_arith)
            requires
                w <= 0xffff_ffff,
                sh <= 0xffff_ffff,
        ;
        assert(2 * h * sw == 2 * (h * sw)) by (nonlinear_arith);
        assert(3 * w * sh == 3 * (w * sh)) by (nonlinear_arith);
    }
    let lhs: u128 = 2 * (h * sw);
    let rhs: u128 = 3 * (w * sh);
    lhs > rhs
}

/// The low 32 bits of `n`.
fn low_bits(n: usize) -> (r: u32)
    ensures
        r as int == n as int % 0x1_0000_0000,
{
    ((n as u64) % 0x1_0000_0000u64) as u32
}

/// The size of the screen: the detected one, cut to 32 bits, or 1920 by
/// 1080 when none was detected.
pub fn get_screen_size(detected: Option<(usize, usize)>) -> (r: (u32, u32))
    ensures
        detected is None ==> r == (1920u32, 1080u32),
        detected is Some ==> r.0 as int == detected.unwrap().0 as int % 0x1_0000_0000 && r.1 as int
            == detected.unwrap().1 as int % 0x1_0000_0000,
{
    match detected {
        Some((w, h)) => (low_bits(w), low_bits(h)),
        None => (1920, 1080),
    }
}

} // verus!
