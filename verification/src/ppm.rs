use vstd::prelude::*;

verus! {

/// One tone-mapped pixel: 8-bit red, green and blue display values.
#[derive(Clone, Copy, PartialEq, Eq, Structural, Debug)]
pub struct Rgb8 {
    pub r: u8,
    pub g: u8,
    pub b: u8,
}

/// The decimal rendering of a non-negative integer, as ASCII bytes, most
/// significant digit first, without padding.
pub open spec fn dec_spec(n: int) -> Seq<u8>
    recommends
        n >= 0,
    decreases n,
{
    if n < 10 {
        seq![(48 + n) as u8]
    } else {
        dec_spec(n / 10).push((48 + n % 10) as u8)
    }
}

/// Appends the decimal rendering of `n` to `out`.
pub fn push_dec(out: &mut Vec<u8>, n: u64)
    ensures
        final(out)@ == old(out)@ + dec_spec(n as int),
    decreases n,
{
    if n < 10 {
        out.push(48 + n as u8);
        proof {
            assert(out@ =~= old(out)@ + dec_spec(n as int));
        }
    } else {
        push_dec(out, n / 10);
        out.push(48 + (n % 10) as u8);
        proof {
            assert(out@ =~= old(out)@ + dec_spec(n as int));
        }
    }
}

/// The header of the plain-text image format: the magic bytes `P3`, the
/// width and height in decimal, and the maximal channel value 255, as the
/// first three whitespace-separated header tokens.
pub open spec fn ppm_header_spec(width: int, height: int) -> Seq<u8> {
    seq![80u8, 51u8, 10u8] + dec_spec(width) + seq![32u8] + dec_spec(height) + seq![10u8]
        + dec_spec(255) + seq![10u8]
}

/// One pixel's three channel values in decimal, each followed by a space.
pub open spec fn pixel_spec(p: Rgb8) -> Seq<u8> {
    dec_spec(p.r as int) + seq![32u8] + dec_spec(p.g as int) + seq![32u8] + dec_spec(p.b as int)
        + seq![32u8]
}

/// The pixel section of the image: every pixel's channels in sequence
/// order.
pub open spec fn pixels_spec(ps: Seq<Rgb8>) -> Seq<u8>
    decreases ps.len(),
{
    if ps.len() == 0 {
        Seq::empty()
    } else {
        pixels_spec(ps.drop_last()) + pixel_spec(ps.last())
    }
}

/// The whole image file: header, then pixels in buffer order.
pub open spec fn ppm_spec(width: int, height: int, ps: Seq<Rgb8>) -> Seq<u8> {
    ppm_header_spec(width, height) + pixels_spec(ps)
}

/// Serializes a tone-mapped pixel buffer as a plain-text image: the exact
/// byte sequence of `ppm_spec`, pixels taken in buffer order (the caller
/// owns the row order of the buffer).
pub fn ppm_bytes(width: u64, height: u64, pixels: &Vec<Rgb8>) -> (out: Vec<u8>)
    ensures
        out@ == ppm_spec(width as int, height as int, pixels@),
{
    let mut out: Vec<u8> = Vec::new();
    out.push(80);
    out.push(51);
    out.push(10);
    push_dec(&mut out, width);
    out.push(32);
    push_dec(&mut out, height);
    out.push(10);
    push_dec(&mut out, 255);
    out.push(10);
    proof {
        assert(out@ =~= ppm_header_spec(width as int, height as int));
    }
    let mut k: usize = 0;
    while k < pixels.len()
        invariant
            k <= pixels@.len(),
            out@ == ppm_header_spec(width as int, height as int) + pixels_spec(
                pixels@.take(k as int),
            ),
        decreases pixels@.len() - k,
    {
        let p = pixels[k];
        push_dec(&mut out, p.r as u64);
        out.push(32);
        push_dec(&mut out, p.g as u64);
        out.push(32);
        push_dec(&mut out, p.b as u64);
        out.push(32);
        proof {
            assert(pixels@.take(k + 1 as int).drop_last() =~= pixels@.take(k as int));
            assert(pixels@.take(k + 1 as int).last() == p);
            assert(out@ =~= ppm_header_spec(width as int, height as int) + pixels_spec(
                pixels@.take(k + 1 as int),
            ));
        }
        k = k + 1;
    }
    proof {
        assert(pixels@.take(pixels@.len() as int) =~= pixels@);
    }
    out
}

} // verus!
