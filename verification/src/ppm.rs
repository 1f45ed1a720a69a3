//! Binary PPM (`P6`) encoding of a rendered image.  The pixels arrive with
//! their channels already quantized to bytes; the encoder fixes the header
//! layout and the row-major channel order exactly.

use vstd::prelude::*;

verus! {

/// One pixel, channels quantized to bytes.
#[derive(Clone, Copy, Debug, PartialEq, Eq, Structural)]
pub struct Rgb {
    pub r: u8,
    pub g: u8,
    pub b: u8,
}

/// Decimal digits of `n`, most significant first.
pub open spec fn dec_repr(n: nat) -> Seq<u8>
    decreases n,
{
    if n < 10 {
        seq![(48 + n) as u8]
    } else {
        dec_repr(n / 10).push((48 + n % 10) as u8)
    }
}

/// The `P6` header: the magic line, the width and height line, and the
/// maximum channel value 255, each line ended by a newline byte.
pub open spec fn spec_header(width: u32, height: u32) -> Seq<u8> {
    seq![80u8, 54u8, 10u8] + dec_repr(width as nat) + seq![32u8] + dec_repr(height as nat) + seq![
        10u8,
        50u8,
        53u8,
        53u8,
        10u8,
    ]
}

/// The pixel area: three channel bytes per pixel, in the order given.
pub open spec fn spec_body(pixels: Seq<Rgb>) -> Seq<u8>
    decreases pixels.len(),
{
    if pixels.len() == 0 {
        Seq::empty()
    } else {
        spec_body(pixels.drop_last()) + seq![
            pixels.last().r,
            pixels.last().g,
            pixels.last().b,
        ]
    }
}

/// Decimal formatting of a `u32`.
pub fn fmt_u32(x: u32) -> (s: Vec<u8>)
    ensures
        s@ == dec_repr(x as nat),
    decreases x,
{
    if x < 10 {
        let mut v: Vec<u8> = Vec::new();
        v.push(48 + (x as u8));
        proof {
            assert(v@ =~= dec_repr(x as nat));
        }
        v
    } else {
        let mut v = fmt_u32(x / 10);
        v.push(48 + ((x % 10) as u8));
        proof {
            assert(v@ =~= dec_repr(x as nat));
        }
        v
    }
}

/// Encode an image as a binary PPM byte stream.  `pixels` is row-major with
/// the top row first, exactly as the bytes are laid out in the file.
pub fn encode(width: u32, height: u32, pixels: &Vec<Rgb>) -> (out: Vec<u8>)
    requires
        pixels@.len() == width as int * height as int,
    ensures
        out@ == spec_header(width, height) + spec_body(pixels@),
{
    let mut out: Vec<u8> = Vec::new();
    out.push(80);
    out.push(54);
    out.push(10);
    let mut wd = fmt_u32(width);
    out.append(&mut wd);
    out.push(32);
    let mut hd = fmt_u32(height);
    out.append(&mut hd);
    out.push(10);
    out.push(50);
    out.push(53);
    out.push(53);
    out.push(10);
    proof {
        assert(out@ =~= spec_header(width, height));
    }
    let ghost header = out@;
    let mut k: usize = 0;
    proof {
        assert(pixels@.take(0) =~= Seq::<Rgb>::empty());
        assert(out@ =~= header + spec_body(pixels@.take(0)));
    }
    while k < pixels.len()
        invariant
            k <= pixels@.len(),
            header == spec_header(width, height),
            out@ == header + spec_body(pixels@.take(k as int)),
        decreases pixels@.len() - k,
    {
        let p = pixels[k];
        out.push(p.r);
        out.push(p.g);
        out.push(p.b);
        proof {
            assert(pixels@.take(k + 1).drop_last() =~= pixels@.take(k as int));
            assert(pixels@.take(k + 1).last() == pixels@[k as int]);
            assert(out@ =~= header + spec_body(pixels@.take(k + 1)));
        }
        k += 1;
    }
    proof {
        assert(pixels@.take(pixels@.len() as int) =~= pixels@);
    }
    out
}

} // verus!
