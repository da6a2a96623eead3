//! Plain-text PPM encoding of a rendered colour buffer.

use vstd::prelude::*;

use crate::colour::{Colour, ColourView};
use crate::fixed::{abs_i, qtrunc};

verus! {

/// Decimal ASCII digits of a nonnegative integer, most significant first.
pub open spec fn dec_s(n: int) -> Seq<u8>
    recommends
        n >= 0,
    decreases n,
{
    if n < 10 {
        seq![(48 + n) as u8]
    } else {
        dec_s(n / 10) + seq![(48 + n % 10) as u8]
    }
}

/// The byte a channel maps to: the channel value scaled to `0..=255`,
/// truncated and clamped (a saturating cast).
pub open spec fn channel_byte_s(c: int) -> int {
    let t = qtrunc(c * 255, 65536);
    if t < 0 {
        0
    } else if t > 255 {
        255
    } else {
        t
    }
}

/// One pixel's line: the three colour channel bytes in decimal, separated
/// by spaces, ending in a newline. The alpha channel is not written.
pub open spec fn pixel_line_s(c: ColourView) -> Seq<u8> {
    dec_s(channel_byte_s(c.r)) + seq![32u8] + dec_s(channel_byte_s(c.g)) + seq![32u8] + dec_s(
        channel_byte_s(c.b),
    ) + seq![10u8]
}

/// The pixel lines of a whole image, in order.
pub open spec fn pixel_lines_s(img: Seq<Colour>) -> Seq<u8>
    decreases img.len(),
{
    if img.len() == 0 {
        Seq::empty()
    } else {
        pixel_lines_s(img.drop_last()) + pixel_line_s(img.last()@)
    }
}

/// A whole PPM document: the `P3` header with the image size and the
/// maximum channel value, then one line per pixel.
pub open spec fn ppm_s(width: int, height: int, img: Seq<Colour>) -> Seq<u8> {
    seq![80u8, 51u8, 32u8] + dec_s(width) + seq![32u8] + dec_s(height) + seq![
        32u8,
        50u8,
        53u8,
        53u8,
        10u8,
    ] + pixel_lines_s(img)
}

/// Appends the decimal digits of `n`.
fn push_decimal(out: &mut Vec<u8>, n: u64)
    ensures
        final(out)@ == old(out)@ + dec_s(n as int),
    decreases n,
{
    if n < 10 {
        out.push(48 + (n as u8));
    } else {
        push_decimal(out, n / 10);
        out.push(48 + ((n % 10) as u8));
        proof {
            assert(old(out)@ + dec_s((n / 10) as int) + seq![(48 + (n as int) % 10) as u8] == old(
                out,
            )@ + dec_s(n as int));
        }
    }
}

/// The byte a channel maps to.
fn channel_byte(c: i64) -> (b: u8)
    ensures
        b as int == channel_byte_s(c as int),
{
    let wide: i128 = (c as i128) * 255;
    let t: i128 = crate::fixed::tdiv128(wide, 65536);
    proof {
        crate::fixed::lemma_qtrunc_abs_le(wide as int, 65536);
    }
    if t < 0 {
        0
    } else if t > 255 {
        255
    } else {
        t as u8
    }
}

/// Encodes a rendered image as a plain-text PPM document.
pub fn write_ppm_image(width: usize, height: usize, image: &Vec<Colour>) -> (out: Vec<u8>)
    ensures
        out@ == ppm_s(width as int, height as int, image@),
{
    let mut out: Vec<u8> = Vec::new();
    out.push(80);
    out.push(51);
    out.push(32);
    push_decimal(&mut out, width as u64);
    out.push(32);
    push_decimal(&mut out, height as u64);
    out.push(32);
    out.push(50);
    out.push(53);
    out.push(53);
    out.push(10);
    let ghost header: Seq<u8> = out@;
    proof {
        assert(header == seq![80u8, 51u8, 32u8] + dec_s(width as int) + seq![32u8] + dec_s(
            height as int,
        ) + seq![32u8, 50u8, 53u8, 53u8, 10u8]) by {
            assert(header =~= seq![80u8, 51u8, 32u8] + dec_s(width as int) + seq![32u8] + dec_s(
                height as int,
            ) + seq![32u8, 50u8, 53u8, 53u8, 10u8]);
        };
    }
    let mut i: usize = 0;
    proof {
        assert(out@ =~= header + pixel_lines_s(image@.take(0)));
    }
    while i < image.len()
        invariant
            0 <= i <= image@.len(),
            out@ == header + pixel_lines_s(image@.take(i as int)),
            header == seq![80u8, 51u8, 32u8] + dec_s(width as int) + seq![32u8] + dec_s(
                height as int,
            ) + seq![32u8, 50u8, 53u8, 53u8, 10u8],
        decreases image@.len() - i,
    {
        let pixel: Colour = image[i];
        let rb: u8 = channel_byte(pixel.r);
        let gb: u8 = channel_byte(pixel.g);
        let bb: u8 = channel_byte(pixel.b);
        let ghost before: Seq<u8> = out@;
        push_decimal(&mut out, rb as u64);
        out.push(32);
        push_decimal(&mut out, gb as u64);
        out.push(32);
        push_decimal(&mut out, bb as u64);
        out.push(10);
        proof {
            assert(image@.take(i as int + 1).drop_last() =~= image@.take(i as int));
            assert(image@.take(i as int + 1).last() == image@[i as int]);
            assert(out@ =~= before + pixel_line_s(image@[i as int]@));
            assert(out@ =~= header + pixel_lines_s(image@.take(i as int + 1)));
        }
        i = i + 1;
    }
    proof {
        assert(image@.take(image@.len() as int) =~= image@);
        assert(ppm_s(width as int, height as int, image@) =~= header + pixel_lines_s(image@));
    }
    out
}

} // verus!
