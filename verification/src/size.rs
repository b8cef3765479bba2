//! Image dimensions and the pixel-to-viewport transform.

use vstd::prelude::*;
use vstd::string::StringSliceAdditionalSpecFns;
use crate::fixed::SCALE;
use crate::fixed::fp_div;
use crate::fixed::fp_div_spec;
use crate::fixed::sat;
use crate::fixed::saturate_quotient;
use crate::fixed::tdiv;

verus! {

/// An ASCII decimal digit.
pub open spec fn is_digit_byte(b: u8) -> bool {
    0x30 <= b <= 0x39
}

/// A nonempty, all-digit byte sequence.
pub open spec fn digits_wf(s: Seq<u8>) -> bool {
    &&& s.len() > 0
    &&& forall|i: int| 0 <= i < s.len() ==> is_digit_byte(#[trigger] s[i])
}

/// The number a digit sequence spells in base ten.
pub open spec fn digits_value(s: Seq<u8>) -> int
    decreases s.len(),
{
    if s.len() == 0 {
        0
    } else {
        digits_value(s.drop_last()) * 10 + (s.last() - 0x30)
    }
}

/// Position `k` separates the bytes into `<digits> 'x' <digits>`.
pub open spec fn splits_at(s: Seq<u8>, k: int) -> bool {
    &&& 0 <= k < s.len()
    &&& s[k] == 0x78u8
    &&& digits_wf(s.subrange(0, k))
    &&& digits_wf(s.subrange(k + 1, s.len() as int))
}

/// The bytes spell `<WIDTH>x<HEIGHT>` with the given values.
pub open spec fn spells_size(s: Seq<u8>, w: int, h: int) -> bool {
    exists|k: int|
        #[trigger] splits_at(s, k) && w == digits_value(s.subrange(0, k)) && h == digits_value(
            s.subrange(k + 1, s.len() as int),
        )
}

proof fn lemma_digits_value_nonneg(s: Seq<u8>)
    requires
        forall|i: int| 0 <= i < s.len() ==> is_digit_byte(#[trigger] s[i]),
    ensures
        digits_value(s) >= 0,
    decreases s.len(),
{
    if s.len() > 0 {
        lemma_digits_value_nonneg(s.drop_last());
    }
}

/// Extending a digit string never shrinks its value.
proof fn lemma_digits_value_prefix(s: Seq<u8>, i: int)
    requires
        forall|j: int| 0 <= j < s.len() ==> is_digit_byte(#[trigger] s[j]),
        0 <= i <= s.len(),
    ensures
        digits_value(s) >= digits_value(s.subrange(0, i)),
    decreases s.len(),
{
    if i == s.len() {
        assert(s.subrange(0, i) =~= s);
    } else {
        let dl = s.drop_last();
        lemma_digits_value_nonneg(dl);
        lemma_digits_value_prefix(dl, i);
        assert(dl.subrange(0, i) =~= s.subrange(0, i));
        assert(digits_value(dl) * 10 >= digits_value(dl)) by (nonlinear_arith)
            requires
                digits_value(dl) >= 0,
        ;
    }
}

/// Only one position can split the bytes into digits around an 'x':
/// an 'x' anywhere else would sit inside a digit run.
proof fn lemma_split_unique(s: Seq<u8>, k1: int, k2: int)
    requires
        splits_at(s, k1),
        0 <= k2 < s.len(),
        s[k2] == 0x78u8,
    ensures
        k1 == k2,
{
    if k2 < k1 {
        assert(s.subrange(0, k1)[k2] == s[k2]);
    } else if k2 > k1 {
        assert(s.subrange(k1 + 1, s.len() as int)[k2 - k1 - 1] == s[k2]);
    }
}

/// Parse the digit run `bytes[from..to]` as a base-ten number,
/// rejecting empty or non-digit input and values beyond `u64`.
fn parse_digits(bytes: &[u8], from: usize, to: usize) -> (r: Option<u64>)
    requires
        from <= to <= bytes@.len(),
    ensures
        (r matches Some(v) ==> digits_wf(bytes@.subrange(from as int, to as int)) && v
            == digits_value(bytes@.subrange(from as int, to as int))),
        (r is None ==> !(digits_wf(bytes@.subrange(from as int, to as int)) && digits_value(
            bytes@.subrange(from as int, to as int),
        ) <= u64::MAX)),
{
    if from == to {
        return None;
    }
    let mut acc: u64 = 0;
    let mut i: usize = from;
    while i < to
        invariant
            from <= i <= to <= bytes@.len(),
            forall|j: int| from <= j < i ==> is_digit_byte(#[trigger] bytes@[j]),
            acc == digits_value(bytes@.subrange(from as int, i as int)),
        decreases to - i,
    {
        let b: u8 = bytes[i];
        if b < 0x30 || b > 0x39 {
            proof {
                assert(bytes@.subrange(from as int, to as int)[i - from] == bytes@[i as int]);
            }
            return None;
        }
        let d: u64 = (b - 0x30) as u64;
        proof {
            assert(bytes@.subrange(from as int, (i + 1) as int).drop_last() =~= bytes@.subrange(
                from as int,
                i as int,
            ));
            assert(bytes@.subrange(from as int, (i + 1) as int).last() == bytes@[i as int]);
            vstd::arithmetic::div_mod::lemma_fundamental_div_mod(u64::MAX - (d as int), 10);
        }
        if acc > (u64::MAX - d) / 10 {
            proof {
                let full = bytes@.subrange(from as int, to as int);
                let upto = bytes@.subrange(from as int, (i + 1) as int);
                assert(digits_value(upto) > u64::MAX) by (nonlinear_arith)
                    requires
                        digits_value(upto) == acc * 10 + d,
                        acc >= (u64::MAX - (d as int)) / 10 + 1,
                        u64::MAX - (d as int) == 10 * ((u64::MAX - (d as int)) / 10) + (u64::MAX
                            - (d as int)) % 10,
                        0 <= (u64::MAX - (d as int)) % 10 < 10,
                ;
                if digits_wf(full) {
                    lemma_digits_value_prefix(full, i + 1 - from);
                    assert(full.subrange(0, i + 1 - from) =~= upto);
                }
            }
            return None;
        }
        acc = acc * 10 + d;
        i = i + 1;
    }
    proof {
        let sub = bytes@.subrange(from as int, to as int);
        assert forall|j: int| 0 <= j < sub.len() implies is_digit_byte(#[trigger] sub[j]) by {
            assert(sub[j] == bytes@[from + j]);
        }
    }
    Some(acc)
}

/// Width and height of the output image, in pixels.
#[derive(Clone, Copy, PartialEq, Eq, Structural, Debug)]
pub struct Size {
    pub width: u64,
    pub height: u64,
}

/// Dimensions small enough that pixel coordinates stay representable
/// in fixed point.
pub open spec fn size_wf(s: Size) -> bool {
    &&& 2 <= s.width <= 0x1_0000_0000
    &&& 2 <= s.height <= 0x1_0000_0000
}

impl Size {
    pub fn new(width: u64, height: u64) -> (s: Size)
        ensures
            s.width == width,
            s.height == height,
    {
        Size { width, height }
    }

    pub fn width(&self) -> (r: u64)
        ensures
            r == self.width,
    {
        self.width
    }

    pub fn height(&self) -> (r: u64)
        ensures
            r == self.height,
    {
        self.height
    }

    /// Width over height as a fixed-point value.
    pub fn aspect_ratio(&self) -> (r: i64)
        requires
            size_wf(*self),
        ensures
            r == sat(tdiv(self.width * SCALE, self.height as int)),
    {
        let n: u128 = (self.width as u128) * (SCALE as u128);
        saturate_quotient(n as i128, self.height as i128)
    }

    /// Parse `<WIDTH>x<HEIGHT>`: decimal digit runs around a single
    /// `x`.  Returns the dimensions exactly when the input has that
    /// shape and both numbers fit in `u64`, and nothing otherwise.
    pub fn parse(s: &str) -> (r: Option<Size>)
        ensures
            (r matches Some(sz) ==> spells_size(s.spec_bytes(), sz.width as int, sz.height as int)),
            (r is None ==> forall|w: int, h: int|
                0 <= w <= u64::MAX && 0 <= h <= u64::MAX ==> !spells_size(s.spec_bytes(), w, h)),
    {
        let bytes: &[u8] = s.as_bytes();
        let n: usize = bytes.len();
        let ghost sb = s.spec_bytes();
        let mut k: usize = 0;
        while k < n && bytes[k] != 0x78
            invariant
                k <= n,
                n == bytes@.len(),
                bytes@ == sb,
                forall|i: int| 0 <= i < k ==> sb[i] != 0x78u8,
            decreases n - k,
        {
            k = k + 1;
        }
        if k == n {
            proof {
                assert forall|w: int, h: int|
                    0 <= w <= u64::MAX && 0 <= h <= u64::MAX implies !spells_size(sb, w, h) by {
                    if spells_size(sb, w, h) {
                        let k1 = choose|k1: int|
                            #[trigger] splits_at(sb, k1) && w == digits_value(sb.subrange(0, k1))
                                && h == digits_value(sb.subrange(k1 + 1, sb.len() as int));
                        assert(sb[k1] == 0x78u8);
                        assert(false);
                    }
                }
            }
            return None;
        }
        let left: Option<u64> = parse_digits(bytes, 0, k);
        let right: Option<u64> = parse_digits(bytes, k + 1, n);
        match (left, right) {
            (Some(wv), Some(hv)) => {
                proof {
                    assert(splits_at(sb, k as int));
                }
                Some(Size::new(wv, hv))
            },
            _ => {
                proof {
                    assert forall|w: int, h: int|
                        0 <= w <= u64::MAX && 0 <= h <= u64::MAX implies !spells_size(sb, w, h) by {
                        if spells_size(sb, w, h) {
                            let k1 = choose|k1: int|
                                #[trigger] splits_at(sb, k1) && w == digits_value(
                                    sb.subrange(0, k1),
                                ) && h == digits_value(sb.subrange(k1 + 1, sb.len() as int));
                            lemma_split_unique(sb, k1, k as int);
                            assert(k1 == k as int);
                            assert(false);
                        }
                    }
                }
                None
            },
        }
    }

    /// Normalize jittered pixel coordinates (fixed-point values in
    /// pixel units) to image-plane coordinates in `[0, 1]`, dividing
    /// by the last pixel index of each axis.
    pub fn transform(&self, u: i64, v: i64) -> (r: (i64, i64))
        requires
            size_wf(*self),
        ensures
            r.0 == fp_div_spec(u as int, (self.width - 1) * SCALE),
            r.1 == fp_div_spec(v as int, (self.height - 1) * SCALE),
    {
        let dw: i64 = ((self.width - 1) as i64) * SCALE;
        let dh: i64 = ((self.height - 1) as i64) * SCALE;
        (fp_div(u, dw), fp_div(v, dh))
    }
}

} // verus!
