//! Laying a caption out on an image: where each line starts for a chosen
//! anchor, how the blurred shadow is blended in, and where the outline is
//! stamped.

use vstd::prelude::*;

verus! {

/// Where the caption stands on the image.
#[derive(Clone, Copy, Debug, PartialEq, Eq)]
pub enum Anchor {
    TopLeft,
    TopRight,
    BottomLeft,
    BottomRight,
    Center,
}

/// The anchor that a label position names: `none` draws no caption, and an
/// unknown name stands for the top left corner.
pub open spec fn anchor_named(s: Seq<char>) -> Option<Anchor> {
    if s == "none"@ {
        None
    } else if s == "center"@ {
        Some(Anchor::Center)
    } else if s == "top_right"@ {
        Some(Anchor::TopRight)
    } else if s == "bottom_left"@ {
        Some(Anchor::BottomLeft)
    } else if s == "bottom_right"@ {
        Some(Anchor::BottomRight)
    } else {
        Some(Anchor::TopLeft)
    }
}

/// The anchor of a label position, or `None` when no caption is drawn, in
/// which case the image is left as it is.
pub fn parse_anchor(label_position: &str) -> (r: Option<Anchor>)
    ensures
        r == anchor_named(label_position@),
{
    if crate::paths::same_text(label_position, "none") {
        None
    } else if crate::paths::same_text(label_position, "center") {
        Some(Anchor::Center)
    } else if crate::paths::same_text(label_position, "top_right") {
        Some(Anchor::TopRight)
    } else if crate::paths::same_text(label_position, "bottom_left") {
        Some(Anchor::BottomLeft)
    } else if crate::paths::same_text(label_position, "bottom_right") {
        Some(Anchor::BottomRight)
    } else {
        Some(Anchor::TopLeft)
    }
}

/// Integer division rounded toward zero, as machine integers divide.
pub open spec fn div_toward_zero(a: int, b: int) -> int {
    if a >= 0 {
        a / b
    } else {
        -((-a) / b)
    }
}

/// The margin between the caption and the image's edges, in pixels.
pub const MARGIN: i64 = 10;

/// The extra space between two lines, in pixels.
pub const LINE_GAP: i64 = 5;

/// The top of the first line: 10 pixels from the top, 10 pixels above the
/// bottom for the text's height, or the text centred vertically.
pub open spec fn caption_top(anchor: Anchor, height: int, text_height: int) -> int {
    match anchor {
        Anchor::Center => div_toward_zero(height - text_height, 2),
        Anchor::BottomLeft | Anchor::BottomRight => height - text_height - 10,
        _ => 10,
    }
}

/// The left of a line of width `line_width`: centred on its own, flush 10
/// pixels from the right edge for the right anchors, else 10 pixels from
/// the left edge.
pub open spec fn line_left(anchor: Anchor, width: int, line_width: int) -> int {
    match anchor {
        Anchor::Center => div_toward_zero(width - line_width, 2),
        Anchor::TopRight | Anchor::BottomRight => width - line_width - 10,
        _ => 10,
    }
}

/// The origin of line `i`: lines are `font_size + 5` pixels apart.
pub open spec fn line_origin(
    anchor: Anchor,
    width: int,
    height: int,
    text_height: int,
    font_size: int,
    line_width: int,
    i: int,
) -> (int, int) {
    (
        line_left(anchor, width, line_width),
        caption_top(anchor, height, text_height) + i * (font_size + 5),
    )
}

fn half_toward_zero(a: i64) -> (r: i64)
    ensures
        r == div_toward_zero(a as int, 2),
{
    if a >= 0 {
        a / 2
    } else {
        -((-(a as i128)) / 2) as i64
    }
}

/// Where each line of the caption starts, for an image of `width` by
/// `height`, a caption of height `text_height`, lines of the given widths,
/// and a font of `font_size` pixels.
pub fn line_origins(
    anchor: Anchor,
    width: u32,
    height: u32,
    text_height: u32,
    font_size: u32,
    line_widths: &Vec<u32>,
) -> (r: Vec<(i128, i128)>)
    ensures
        r@.len() == line_widths@.len(),
        forall|i: int|
            0 <= i < r@.len() ==> (#[trigger] r@[i]).0 as int == line_origin(
                anchor,
                width as int,
                height as int,
                text_height as int,
                font_size as int,
                line_widths@[i] as int,
                i,
            ).0 && r@[i].1 as int == line_origin(
                anchor,
                width as int,
                height as int,
                text_height as int,
                font_size as int,
                line_widths@[i] as int,
                i,
            ).1,
{
    let top: i64 = match anchor {
        Anchor::Center => half_toward_zero(height as i64 - text_height as i64),
        Anchor::BottomLeft | Anchor::BottomRight => height as i64 - text_height as i64 - MARGIN,
        _ => MARGIN,
    };
    let step: i128 = font_size as i128 + LINE_GAP as i128;
    let mut r: Vec<(i128, i128)> = Vec::new();
    let mut i: usize = 0;
    while i < line_widths.len()
        invariant
            i <= line_widths@.len(),
            r@.len() == i,
            top as int == caption_top(anchor, height as int, text_height as int),
            step == font_size + 5,
            forall|j: int|
                0 <= j < i ==> (#[trigger] r@[j]).0 as int == line_origin(
                    anchor,
                    width as int,
                    height as int,
                    text_height as int,
                    font_size as int,
                    line_widths@[j] as int,
                    j,
                ).0 && r@[j].1 as int == line_origin(
                    anchor,
                    width as int,
                    height as int,
                    text_height as int,
                    font_size as int,
                    line_widths@[j] as int,
                    j,
                ).1,
        decreases line_widths@.len() - i,
    {
        let lw = line_widths[i] as i64;
        let left: i64 = match anchor {
            Anchor::Center => half_toward_zero(width as i64 - lw),
            Anchor::TopRight | Anchor::BottomRight => width as i64 - lw - MARGIN,
            _ => MARGIN,
        };
        proof {
            assert(0 <= i * step <= 0xffff_ffff_ffff_ffff * 0x1_0000_0004) by (nonlinear_arith)
                requires
                    0 <= i <= 0xffff_ffff_ffff_ffff,
                    0 <= step <= 0x1_0000_0004,
            ;
        }
        let y: i128 = top as i128 + (i as i128) * step;
        r.push((left as i128, y));
        i = i + 1;
    }
    r
}

/// One channel of `overlay` laid over `base` with opacity `alpha` out of
/// 255: `base * (1 - a) + overlay * a`, rounded down.
pub open spec fn mix(base: int, overlay: int, alpha: int) -> int {
    (base * (255 - alpha) + overlay * alpha) / 255
}

/// Lays pixel `overlay` over pixel `base` by its opacity; the result is
/// opaque.
pub fn blend(base: [u8; 4], overlay: [u8; 4]) -> (r: [u8; 4])
    ensures
        r@ == seq![
            mix(base@[0] as int, overlay@[0] as int, overlay@[3] as int) as u8,
            mix(base@[1] as int, overlay@[1] as int, overlay@[3] as int) as u8,
            mix(base@[2] as int, overlay@[2] as int, overlay@[3] as int) as u8,
            255u8,
        ],
{
    let a = overlay[3];
    let r = [
        mix_channel(base[0], overlay[0], a),
        mix_channel(base[1], overlay[1], a),
        mix_channel(base[2], overlay[2], a),
        255u8,
    ];
    assert(r@ =~= seq![
        mix(base@[0] as int, overlay@[0] as int, overlay@[3] as int) as u8,
        mix(base@[1] as int, overlay@[1] as int, overlay@[3] as int) as u8,
        mix(base@[2] as int, overlay@[2] as int, overlay@[3] as int) as u8,
        255u8,
    ]);
    r
}

fn mix_channel(base: u8, overlay: u8, alpha: u8) -> (r: u8)
    ensures
        r as int == mix(base as int, overlay as int, alpha as int),
{
    let b = base as u32;
    let o = overlay as u32;
    let a = alpha as u32;
    proof {
        assert(b * (255 - a) + o * a <= 255 * 255) by (nonlinear_arith)
            requires
                b <= 255,
                o <= 255,
                a <= 255,
        ;
        assert(0 <= b * (255 - a)) by (nonlinear_arith)
            requires
                a <= 255,
        ;
        assert(0 <= o * a) by (nonlinear_arith)
            requires
                a <= 255,
        ;
    }
    ((b * (255 - a) + o * a) / 255) as u8
}

/// `base` after the shadow was laid over it: every pixel of `shadow` with
/// some opacity is blended over the pixel of `base` at the same place, and
/// every other pixel of `base` is kept.
pub open spec fn shadowed(base: Seq<u8>, shadow: Seq<u8>) -> Seq<u8> {
    Seq::new(
        base.len(),
        |k: int|
            {
                let p = k - k % 4;
                if shadow[p + 3] > 0 {
                    if k % 4 == 3 {
                        255u8
                    } else {
                        mix(base[k] as int, shadow[k] as int, shadow[p + 3] as int) as u8
                    }
                } else {
                    base[k]
                }
            },
    )
}

/// Lays the blurred shadow over the image, both as RGBA bytes of the same
/// size.
pub fn overlay_shadow(base: &mut Vec<u8>, shadow: &Vec<u8>)
    requires
        old(base)@.len() == shadow@.len(),
        old(base)@.len() % 4 == 0,
    ensures
        final(base)@ == shadowed(old(base)@, shadow@),
{
    let n = base.len();
    let mut k: usize = 0;
    while k < n
        invariant
            n == base@.len() == shadow@.len() == old(base)@.len(),
            n % 4 == 0,
            k % 4 == 0,
            k <= n,
            forall|j: int| 0 <= j < k ==> #[trigger] base@[j] == shadowed(old(base)@, shadow@)[j],
            forall|j: int| k <= j < n ==> #[trigger] base@[j] == old(base)@[j],
        decreases n - k,
    {
        let a = shadow[k + 3];
        if a > 0 {
            let px = blend(
                [base[k], base[k + 1], base[k + 2], base[k + 3]],
                [shadow[k], shadow[k + 1], shadow[k + 2], a],
            );
            base.set(k, px[0]);
            base.set(k + 1, px[1]);
            base.set(k + 2, px[2]);
            base.set(k + 3, px[3]);
        }
        proof {
            assert forall|j: int| k <= j < k + 4 implies #[trigger] base@[j] == shadowed(
                old(base)@,
                shadow@,
            )[j] by {
                assert(j - j % 4 == k);
            }
        }
        k = k + 4;
    }
    assert(base@ =~= shadowed(old(base)@, shadow@));
}

/// The offsets at which the outline of width 1 is stamped, before the text
/// itself is stamped at offset (0, 0): the eight neighbours, row by row.
pub open spec fn outline_ring() -> Seq<(int, int)> {
    seq![(-1, -1), (0, -1), (1, -1), (-1, 0), (1, 0), (-1, 1), (0, 1), (1, 1)]
}

/// The offsets of the outline of a text, as `outline_ring` lists them.
pub fn outline_offsets() -> (r: Vec<(i32, i32)>)
    ensures
        r@.len() == outline_ring().len(),
        forall|i: int|
            0 <= i < r@.len() ==> (#[trigger] r@[i]).0 as int == outline_ring()[i].0 && r@[i].1 as int
                == outline_ring()[i].1,
{
    let mut r: Vec<(i32, i32)> = Vec::new();
    let mut dy: i32 = -1;
    while dy <= 1
        invariant
            -1 <= dy <= 2,
            r@.len() == if dy == -1 { 0nat } else if dy == 0 { 3nat } else if dy == 1 { 5nat } else { 8nat },
            forall|i: int|
                0 <= i < r@.len() ==> (#[trigger] r@[i]).0 as int == outline_ring()[i].0 && r@[i].1 as int
                    == outline_ring()[i].1,
        decreases 2 - dy,
    {
        let mut dx: i32 = -1;
        let ghost start = r@.len();
        while dx <= 1
            invariant
                -1 <= dy <= 1,
                -1 <= dx <= 2,
                start == (if dy == -1 { 0int } else if dy == 0 { 3 } else { 5 }),
                r@.len() == start + (if dy == 0 {
                    if dx <= 0 { dx + 1 } else { dx as int }
                } else {
                    dx as int + 1
                }),
                forall|i: int|
                    0 <= i < r@.len() ==> (#[trigger] r@[i]).0 as int == outline_ring()[i].0 && r@[i].1 as int
                        == outline_ring()[i].1,
            decreases 2 - dx,
        {
            if dx != 0 || dy != 0 {
                r.push((dx, dy));
            }
            dx = dx + 1;
        }
        dy = dy + 1;
    }
    r
}

} // verus!
