use vstd::prelude::*;

verus! {

/// Row alignment, in bytes, that a texture-to-buffer copy demands.
pub const ROW_ALIGNMENT: usize = 256;

/// Bytes in one tightly packed RGBA row of `width` pixels.
pub open spec fn unpadded_row_spec(width: nat) -> nat {
    width * 4
}

/// Smallest multiple of the row alignment that holds a packed row.
pub open spec fn padded_row_spec(width: nat) -> nat {
    let raw = unpadded_row_spec(width);
    if raw % 256 == 0 {
        raw
    } else {
        (raw + (256 - raw % 256)) as nat
    }
}

/// The packed image held in a buffer whose rows are `stride` bytes apart:
/// the first `row` bytes of each of `height` rows.
pub open spec fn stripped(padded: Seq<u8>, row: nat, stride: nat, height: nat) -> Seq<u8> {
    Seq::new(row * height, |i: int| padded[(i / row as int) * stride + i % row as int])
}

/// A packed image laid out with rows `stride` bytes apart, the gap filled with zeros.
pub open spec fn padded(packed: Seq<u8>, row: nat, stride: nat, height: nat) -> Seq<u8> {
    Seq::new(
        stride * height,
        |i: int|
            if i % (stride as int) < (row as int) {
                packed[(i / stride as int) * row + i % stride as int]
            } else {
                0u8
            },
    )
}

/// Copies the first `row` bytes of each of `height` rows of `padded_data`,
/// whose rows start `stride` bytes apart, into one tightly packed buffer.
pub fn strip_padding(padded_data: &Vec<u8>, row: usize, stride: usize, height: usize) -> (r: Vec<
    u8,
>)
    requires
        row <= stride,
        stride * height <= padded_data@.len(),
    ensures
        r@ == stripped(padded_data@, row as nat, stride as nat, height as nat),
{
    let total: usize = padded_data.len();
    let mut out: Vec<u8> = Vec::new();
    let mut y: usize = 0;
    while y < height
        invariant
            row <= stride,
            stride * height <= padded_data@.len(),
            total == padded_data@.len(),
            y <= height,
            out@.len() == y * row,
            forall|i: int|
                0 <= i < y * row ==> #[trigger] out@[i] == padded_data@[(i / row as int) * stride
                    + i % row as int],
        decreases height - y,
    {
        proof {
            lemma_mul_le(y as int + 1, height as int, stride as int);
            assert((y as int + 1) * stride == y * stride + stride) by (nonlinear_arith);
            assert(height * stride == stride * height) by (nonlinear_arith);
            assert(y * stride + stride <= total);
        }
        let start: usize = y * stride;
        let mut x: usize = 0;
        while x < row
            invariant
                row <= stride,
                stride * height <= padded_data@.len(),
                y < height,
                start == y * stride,
                start + stride <= padded_data@.len(),
                total == padded_data@.len(),
                x <= row,
                out@.len() == y * row + x,
                forall|i: int|
                    0 <= i < y * row + x ==> #[trigger] out@[i] == padded_data@[(i / row as int)
                        * stride + i % row as int],
            decreases row - x,
        {
            proof {
                lemma_row_index(y as int, x as int, row as int);
                assert(start + x < total);
            }
            out.push(padded_data[start + x]);
            x = x + 1;
        }
        assert((y as int + 1) * row == y * row + row) by (nonlinear_arith);
        y = y + 1;
    }
    proof {
        assert(height * row == row * height) by (nonlinear_arith);
        assert(out@ =~= stripped(padded_data@, row as nat, stride as nat, height as nat));
    }
    out
}

/// Lays out a packed image of `height` rows of `row` bytes with rows `stride`
/// bytes apart, as a texture copy into a row-aligned buffer does; the gap is zero.
pub fn pad_rows(packed: &Vec<u8>, row: usize, stride: usize, height: usize) -> (r: Vec<u8>)
    requires
        row <= stride,
        packed@.len() == row * height,
        stride * height <= usize::MAX,
    ensures
        r@ == padded(packed@, row as nat, stride as nat, height as nat),
{
    let total: usize = packed.len();
    let mut out: Vec<u8> = Vec::new();
    let mut y: usize = 0;
    while y < height
        invariant
            row <= stride,
            total == packed@.len(),
            packed@.len() == row * height,
            stride * height <= usize::MAX,
            y <= height,
            out@.len() == y * stride,
            forall|i: int|
                0 <= i < y * stride ==> #[trigger] out@[i] == (if i % (stride as int) < (row as int) {
                    packed@[(i / stride as int) * row + i % stride as int]
                } else {
                    0u8
                }),
        decreases height - y,
    {
        proof {
            lemma_mul_le(y as int + 1, height as int, row as int);
            lemma_mul_le(y as int + 1, height as int, stride as int);
            assert((y as int + 1) * row == y * row + row) by (nonlinear_arith);
            assert((y as int + 1) * stride == y * stride + stride) by (nonlinear_arith);
            assert(height * row == row * height) by (nonlinear_arith);
            assert(height * stride == stride * height) by (nonlinear_arith);
            assert(y * row + row <= total);
        }
        let start: usize = y * row;
        let mut x: usize = 0;
        while x < stride
            invariant
                row <= stride,
                packed@.len() == row * height,
                y < height,
                start == y * row,
                start + row <= packed@.len(),
                total == packed@.len(),
                (y + 1) * stride <= usize::MAX,
                (y + 1) * stride == y * stride + stride,
                x <= stride,
                out@.len() == y * stride + x,
                forall|i: int|
                    0 <= i < y * stride + x ==> #[trigger] out@[i] == (if i % (stride as int) < (
                    row as int) {
                        packed@[(i / stride as int) * row + i % stride as int]
                    } else {
                        0u8
                    }),
            decreases stride - x,
        {
            proof {
                lemma_row_index(y as int, x as int, stride as int);
            }
            if x < row {
                assert(start + x < total);
                out.push(packed[start + x]);
            } else {
                out.push(0u8);
            }
            x = x + 1;
        }
        y = y + 1;
    }
    proof {
        assert(height * stride == stride * height) by (nonlinear_arith);
        assert(out@ =~= padded(packed@, row as nat, stride as nat, height as nat));
    }
    out
}

/// Stripping the padding from a padded layout gives back the packed image,
/// byte for byte.
pub proof fn lemma_pad_strip_round_trip(packed: Seq<u8>, row: nat, stride: nat, height: nat)
    requires
        row <= stride,
        packed.len() == row * height,
    ensures
        stripped(padded(packed, row, stride, height), row, stride, height) == packed,
{
    let p = padded(packed, row, stride, height);
    let s = stripped(p, row, stride, height);
    assert forall|i: int| 0 <= i < row * height implies #[trigger] s[i] == packed[i] by {
        let y = i / row as int;
        let x = i % row as int;
        assert(row > 0) by (nonlinear_arith)
            requires
                0 <= i < row * height,
        ;
        vstd::arithmetic::div_mod::lemma_fundamental_div_mod(i, row as int);
        assert(0 <= x < row);
        assert(0 <= y);
        assert(y * row + x == i) by (nonlinear_arith)
            requires
                i == row * y + x,
        ;
        assert(y < height) by (nonlinear_arith)
            requires
                i == y * row + x,
                i < row * height,
                0 <= x,
                0 <= y,
        ;
        lemma_mul_le(y + 1, height as int, stride as int);
        assert((y + 1) * stride == y * stride + stride) by (nonlinear_arith);
        lemma_row_index(y, x, stride as int);
        assert(s[i] == p[y * stride + x]);
    }
    assert(s =~= packed);
}

/// `(y * row + x) / row == y` and `(y * row + x) % row == x` for `x < row`.
pub proof fn lemma_row_index(y: int, x: int, row: int)
    requires
        0 <= y,
        0 <= x < row,
    ensures
        (y * row + x) / row == y,
        (y * row + x) % row == x,
{
    vstd::arithmetic::div_mod::lemma_fundamental_div_mod_converse(y * row + x, row, y, x);
}

/// `a <= b` gives `a * c <= b * c` for a non-negative `c`.
pub proof fn lemma_mul_le(a: int, b: int, c: int)
    requires
        a <= b,
        0 <= c,
    ensures
        a * c <= b * c,
{
    vstd::arithmetic::mul::lemma_mul_inequality(a, b, c);
}

} // verus!
