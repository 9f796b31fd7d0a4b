use vstd::prelude::*;

use crate::readback::lemma_row_index;

verus! {

/// Width and height of a `w` by `h` image after `t` clockwise quarter turns.
pub open spec fn rotated_dims(w: nat, h: nat, t: nat) -> (nat, nat) {
    if t % 2 == 1 {
        (h, w)
    } else {
        (w, h)
    }
}

/// The source pixel that lands on `(dx, dy)` when a `w` by `h` image is turned
/// clockwise by `t` quarter turns.
pub open spec fn source_xy(w: int, h: int, t: nat, dx: int, dy: int) -> (int, int) {
    if t % 4 == 0 {
        (dx, dy)
    } else if t % 4 == 1 {
        (dy, h - 1 - dx)
    } else if t % 4 == 2 {
        (w - 1 - dx, h - 1 - dy)
    } else {
        (w - 1 - dy, dx)
    }
}

/// The byte of a packed RGBA `w`-wide image at pixel `(x, y)`, channel `k`.
pub open spec fn rgba_index(w: int, x: int, y: int, k: int) -> int {
    (y * w + x) * 4 + k
}

/// A packed RGBA image of `w` by `h` pixels turned clockwise by `t` quarter turns.
pub open spec fn rotated(img: Seq<u8>, w: nat, h: nat, t: nat) -> Seq<u8> {
    let ow = rotated_dims(w, h, t).0;
    let oh = rotated_dims(w, h, t).1;
    Seq::new(
        ow * oh * 4,
        |i: int|
            {
                let p = i / 4;
                let s = source_xy(w as int, h as int, t, p % ow as int, p / ow as int);
                img[rgba_index(w as int, s.0, s.1, i % 4)]
            },
    )
}

/// Where pixel `(x, y)`, channel `k`, of a `w` by `h` packed RGBA image lies,
/// and how that index decodes back to the pixel and channel.
pub proof fn lemma_pixel_index(w: int, h: int, x: int, y: int, k: int)
    requires
        0 <= x < w,
        0 <= y < h,
        0 <= k < 4,
    ensures
        0 <= y * w + x < w * h,
        0 <= rgba_index(w, x, y, k) < w * h * 4,
        rgba_index(w, x, y, k) / 4 == y * w + x,
        rgba_index(w, x, y, k) % 4 == k,
        (y * w + x) / w == y,
        (y * w + x) % w == x,
{
    assert(0 <= y * w + x < w * h) by (nonlinear_arith)
        requires
            0 <= x < w,
            0 <= y < h,
    ;
    lemma_row_index(y * w + x, k, 4);
    lemma_row_index(y, x, w);
}

/// The clockwise quarter turns that a sensor mounted at `degrees` needs, for
/// the mountings a camera reports (0, 90, 180 and 270 degrees).
pub open spec fn turns_of_degrees(degrees: int) -> Option<nat> {
    if degrees == 0 || degrees == 90 || degrees == 180 || degrees == 270 {
        Some((degrees / 90) as nat)
    } else {
        None
    }
}

/// Quarter turns for a sensor orientation in degrees; `None` for any angle
/// other than 0, 90, 180 or 270.
pub fn quarter_turns(degrees: i32) -> (r: Option<u32>)
    ensures
        r matches Some(t) ==> t < 4 && turns_of_degrees(degrees as int) == Some(t as nat),
        r is None ==> turns_of_degrees(degrees as int) is None,
{
    if degrees == 0 || degrees == 90 || degrees == 180 || degrees == 270 {
        Some((degrees / 90) as u32)
    } else {
        None
    }
}

/// Width and height after `turns` clockwise quarter turns.
pub fn rotated_size(width: u32, height: u32, turns: u32) -> (r: (u32, u32))
    ensures
        (r.0 as nat, r.1 as nat) == rotated_dims(width as nat, height as nat, turns as nat),
{
    if turns % 2 == 1 {
        (height, width)
    } else {
        (width, height)
    }
}

/// Every pixel of the turned image comes from a pixel of the source.
pub proof fn lemma_source_in_range(w: int, h: int, t: nat, dx: int, dy: int)
    requires
        0 <= dx < rotated_dims(w as nat, h as nat, t).0,
        0 <= dy < rotated_dims(w as nat, h as nat, t).1,
        w >= 0,
        h >= 0,
    ensures
        0 <= source_xy(w, h, t, dx, dy).0 < w,
        0 <= source_xy(w, h, t, dx, dy).1 < h,
{
}

/// Turning an image by no quarter turn leaves it as it is.
pub proof fn lemma_rotate_zero(img: Seq<u8>, w: nat, h: nat)
    requires
        img.len() == w * h * 4,
    ensures
        rotated_dims(w, h, 0) == (w, h),
        rotated(img, w, h, 0) == img,
{
    let r = rotated(img, w, h, 0);
    assert forall|i: int| 0 <= i < img.len() implies #[trigger] r[i] == img[i] by {
        let p = i / 4;
        let k = i % 4;
        vstd::arithmetic::div_mod::lemma_fundamental_div_mod(i, 4);
        vstd::arithmetic::div_mod::lemma_fundamental_div_mod(p, w as int);
        assert(w > 0) by (nonlinear_arith)
            requires
                0 <= i < w * h * 4,
        ;
        assert(rgba_index(w as int, p % w as int, p / w as int, k) == i) by (nonlinear_arith)
            requires
                p == w * (p / w as int) + p % w as int,
                i == 4 * p + k,
        ;
    }
    assert(r =~= img);
}

/// Turning by `a` and then by `b` quarter turns is turning by `a + b`.
pub proof fn lemma_rotate_compose(img: Seq<u8>, w: nat, h: nat, a: nat, b: nat)
    requires
        img.len() == w * h * 4,
    ensures
        rotated_dims(rotated_dims(w, h, a).0, rotated_dims(w, h, a).1, b) == rotated_dims(
            w,
            h,
            a + b,
        ),
        rotated(rotated(img, w, h, a), rotated_dims(w, h, a).0, rotated_dims(w, h, a).1, b)
            == rotated(img, w, h, a + b),
{
    let w1 = rotated_dims(w, h, a).0;
    let h1 = rotated_dims(w, h, a).1;
    let (w2, h2) = rotated_dims(w, h, a + b);
    let mid = rotated(img, w, h, a);
    let lhs = rotated(mid, w1, h1, b);
    let rhs = rotated(img, w, h, a + b);
    assert(w1 * h1 * 4 == w * h * 4) by (nonlinear_arith)
        requires
            (w1 == w && h1 == h) || (w1 == h && h1 == w),
    ;
    assert(w2 * h2 * 4 == w * h * 4) by (nonlinear_arith)
        requires
            (w2 == w && h2 == h) || (w2 == h && h2 == w),
    ;
    assert forall|i: int| 0 <= i < rhs.len() implies #[trigger] lhs[i] == rhs[i] by {
        let p = i / 4;
        let k = i % 4;
        assert(w2 > 0) by (nonlinear_arith)
            requires
                0 <= i < w2 * h2 * 4,
        ;
        vstd::arithmetic::div_mod::lemma_fundamental_div_mod(i, 4);
        vstd::arithmetic::div_mod::lemma_fundamental_div_mod(p, w2 as int);
        let dx = p % w2 as int;
        let dy = p / w2 as int;
        assert(0 <= dy < h2) by (nonlinear_arith)
            requires
                p == w2 * dy + dx,
                0 <= dx < w2,
                0 <= i < w2 * h2 * 4,
                i == 4 * p + k,
                0 <= k < 4,
        ;
        let m = source_xy(w1 as int, h1 as int, b, dx, dy);
        lemma_source_in_range(w1 as int, h1 as int, b, dx, dy);
        lemma_pixel_index(w1 as int, h1 as int, m.0, m.1, k);
        assert((a + b) % 4 == (a % 4 + b % 4) % 4);
        assert(source_xy(w as int, h as int, a, m.0, m.1) == source_xy(
            w as int,
            h as int,
            a + b,
            dx,
            dy,
        ));
    }
    assert(lhs =~= rhs);
}

/// Four clockwise quarter turns give back the image.
pub proof fn lemma_four_quarter_turns(img: Seq<u8>, w: nat, h: nat)
    requires
        img.len() == w * h * 4,
    ensures
        rotated(rotated(rotated(rotated(img, w, h, 1), h, w, 1), w, h, 1), h, w, 1) == img,
{
    lemma_rotate_compose(img, w, h, 1, 1);
    let r2 = rotated(img, w, h, 2);
    lemma_rotate_compose(r2, w, h, 1, 1);
    lemma_rotate_compose(img, w, h, 2, 2);
    lemma_rotate_compose(img, w, h, 0, 0);
    lemma_rotate_zero(img, w, h);
    assert(rotated(img, w, h, 4) =~= rotated(img, w, h, 0));
}

/// Turning by `a` and then by `b` quarter turns, where `a + b` is a whole
/// turn, gives back the dimensions and the image.
pub proof fn lemma_opposite_turns(img: Seq<u8>, w: nat, h: nat, a: nat, b: nat)
    requires
        img.len() == w * h * 4,
        (a + b) % 4 == 0,
    ensures
        rotated_dims(rotated_dims(w, h, a).0, rotated_dims(w, h, a).1, b) == (w, h),
        rotated(rotated(img, w, h, a), rotated_dims(w, h, a).0, rotated_dims(w, h, a).1, b)
            == img,
{
    lemma_rotate_compose(img, w, h, a, b);
    lemma_rotate_zero(img, w, h);
    assert(rotated(img, w, h, a + b) =~= rotated(img, w, h, 0));
}

/// Turns a packed RGBA image of `w` by `h` pixels clockwise by `turns`
/// quarter turns (0 to 3); the result is `h` by `w` for an odd count.
pub fn rotate_rgba(src: &Vec<u8>, w: usize, h: usize, turns: u32) -> (r: Vec<u8>)
    requires
        turns < 4,
        src@.len() == w * h * 4,
    ensures
        r@ == rotated(src@, w as nat, h as nat, turns as nat),
{
    let (ow, oh) = if turns % 2 == 1 {
        (h, w)
    } else {
        (w, h)
    };
    let ghost t = turns as nat;
    let total: usize = src.len();
    let mut out: Vec<u8> = Vec::new();
    let mut dy: usize = 0;
    while dy < oh
        invariant
            turns < 4,
            t == turns,
            total == src@.len(),
            src@.len() == w * h * 4,
            (ow as nat, oh as nat) == rotated_dims(w as nat, h as nat, t),
            dy <= oh,
            out@.len() == dy * ow * 4,
            forall|i: int|
                0 <= i < dy * ow * 4 ==> #[trigger] out@[i] == rotated(src@, w as nat, h as nat, t)[i],
        decreases oh - dy,
    {
        let mut dx: usize = 0;
        while dx < ow
            invariant
                turns < 4,
                t == turns,
                total == src@.len(),
                src@.len() == w * h * 4,
                (ow as nat, oh as nat) == rotated_dims(w as nat, h as nat, t),
                dy < oh,
                dx <= ow,
                out@.len() == (dy * ow + dx) * 4,
                forall|i: int|
                    0 <= i < (dy * ow + dx) * 4 ==> #[trigger] out@[i] == rotated(
                        src@,
                        w as nat,
                        h as nat,
                        t,
                    )[i],
            decreases ow - dx,
        {
            let (sx, sy) = if turns == 0 {
                (dx, dy)
            } else if turns == 1 {
                (dy, h - 1 - dx)
            } else if turns == 2 {
                (w - 1 - dx, h - 1 - dy)
            } else {
                (w - 1 - dy, dx)
            };
            assert((sx as int, sy as int) == source_xy(w as int, h as int, t, dx as int, dy as int));
            proof {
                lemma_pixel_index(w as int, h as int, sx as int, sy as int, 0);
                lemma_pixel_index(w as int, h as int, sx as int, sy as int, 3);
                lemma_pixel_index(ow as int, oh as int, dx as int, dy as int, 0);
                assert(0 <= sy * w);
            }
            let base: usize = (sy * w + sx) * 4;
            let ghost before = out@;
            let ghost p = dy * ow + dx;
            out.push(src[base]);
            out.push(src[base + 1]);
            out.push(src[base + 2]);
            out.push(src[base + 3]);
            proof {
                assert forall|i: int| 0 <= i < (p + 1) * 4 implies #[trigger] out@[i] == rotated(
                    src@,
                    w as nat,
                    h as nat,
                    t,
                )[i] by {
                    if i >= p * 4 {
                        let k = i - p * 4;
                        lemma_pixel_index(ow as int, oh as int, dx as int, dy as int, k);
                        lemma_pixel_index(w as int, h as int, sx as int, sy as int, k);
                        assert(i == rgba_index(ow as int, dx as int, dy as int, k));
                    } else {
                        assert(out@[i] == before[i]);
                    }
                }
            }
            dx = dx + 1;
        }
        assert((dy + 1) * ow * 4 == (dy * ow + ow) * 4) by (nonlinear_arith);
        dy = dy + 1;
    }
    proof {
        assert(oh * ow * 4 == ow * oh * 4) by (nonlinear_arith);
        assert(out@ =~= rotated(src@, w as nat, h as nat, t));
    }
    out
}

} // verus!
